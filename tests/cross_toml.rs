use cross_core::{
    ConfigError, CrossBuildConfig, CrossEnvConfig, CrossTargetConfig, CrossTargetDockerfileConfig,
    CrossToml, Target, TargetList, TomlValue,
};

fn s(x: &str) -> String {
    x.to_string()
}

fn target_cfg_with(
    passthrough: &str,
    volume: &str,
    build_std: bool,
    image: &str,
) -> CrossTargetConfig {
    CrossTargetConfig {
        env: CrossEnvConfig {
            passthrough: Some(vec![s(passthrough)]),
            volumes: Some(vec![s(volume)]),
        },
        xargo: Some(false),
        build_std: Some(build_std),
        image: Some(s(image)),
        runner: None,
        pre_build: None,
        dockerfile: None,
    }
}

#[test]
pub fn parse_empty_toml() -> Result<(), ConfigError> {
    let cfg = CrossToml {
        targets: Vec::new(),
        build: CrossBuildConfig::default(),
    };
    let (parsed_cfg, unused) = CrossToml::parse("")?;

    assert_eq!(parsed_cfg, cfg);
    assert!(unused.is_empty());

    Ok(())
}

#[test]
pub fn parse_build_toml() -> Result<(), ConfigError> {
    let cfg = CrossToml {
        targets: Vec::new(),
        build: CrossBuildConfig {
            env: CrossEnvConfig {
                volumes: Some(vec![s("VOL1_ARG"), s("VOL2_ARG")]),
                passthrough: Some(vec![s("VAR1"), s("VAR2")]),
            },
            xargo: Some(true),
            build_std: None,
            default_target: None,
            pre_build: Some(vec![s("echo 'Hello World!'")]),
            dockerfile: None,
        },
    };

    let test_str = r#"
          [build]
          xargo = true
          pre-build = ["echo 'Hello World!'"]

          [build.env]
          volumes = ["VOL1_ARG", "VOL2_ARG"]
          passthrough = ["VAR1", "VAR2"]
        "#;
    let (parsed_cfg, unused) = CrossToml::parse(test_str)?;

    assert_eq!(parsed_cfg, cfg);
    assert!(unused.is_empty());

    Ok(())
}

#[test]
pub fn parse_target_toml() -> Result<(), ConfigError> {
    let target_map = vec![(
        Target::BuiltIn {
            triple: s("aarch64-unknown-linux-gnu"),
        },
        CrossTargetConfig {
            env: CrossEnvConfig {
                passthrough: Some(vec![s("VAR1"), s("VAR2")]),
                volumes: Some(vec![s("VOL1_ARG"), s("VOL2_ARG")]),
            },
            xargo: Some(false),
            build_std: Some(true),
            image: Some(s("test-image")),
            runner: None,
            dockerfile: None,
            pre_build: Some(vec![]),
        },
    )];

    let cfg = CrossToml {
        targets: target_map,
        build: CrossBuildConfig::default(),
    };

    let test_str = r#"
            [target.aarch64-unknown-linux-gnu.env]
            volumes = ["VOL1_ARG", "VOL2_ARG"]
            passthrough = ["VAR1", "VAR2"]
            [target.aarch64-unknown-linux-gnu]
            xargo = false
            build-std = true
            image = "test-image"
            pre-build = []
        "#;
    let (parsed_cfg, unused) = CrossToml::parse(test_str)?;

    assert_eq!(parsed_cfg, cfg);
    assert!(unused.is_empty());

    Ok(())
}

#[test]
pub fn parse_mixed_toml() -> Result<(), ConfigError> {
    let target_map = vec![(
        Target::BuiltIn {
            triple: s("aarch64-unknown-linux-gnu"),
        },
        CrossTargetConfig {
            xargo: Some(false),
            build_std: None,
            image: None,
            dockerfile: Some(CrossTargetDockerfileConfig {
                file: s("Dockerfile.test"),
                context: None,
                build_args: None,
            }),
            pre_build: Some(vec![s("echo 'Hello'")]),
            runner: None,
            env: CrossEnvConfig {
                passthrough: None,
                volumes: Some(vec![s("VOL")]),
            },
        },
    )];

    let cfg = CrossToml {
        targets: target_map,
        build: CrossBuildConfig {
            env: CrossEnvConfig {
                volumes: None,
                passthrough: Some(vec![]),
            },
            xargo: Some(true),
            build_std: None,
            default_target: None,
            pre_build: Some(vec![]),
            dockerfile: None,
        },
    };

    let test_str = r#"
            [build]
            xargo = true
            pre-build = []

            [build.env]
            passthrough = []

            [target.aarch64-unknown-linux-gnu]
            xargo = false
            dockerfile = "Dockerfile.test"
            pre-build = ["echo 'Hello'"]

            [target.aarch64-unknown-linux-gnu.env]
            volumes = ["VOL"]
        "#;
    let (parsed_cfg, unused) = CrossToml::parse(test_str)?;

    assert_eq!(parsed_cfg, cfg);
    assert!(unused.is_empty());

    Ok(())
}

#[test]
pub fn parse_from_empty_cargo_toml() -> Result<(), ConfigError> {
    let test_str = r#"
          [package]
          name = "cargo_toml_test_package"
          version = "0.1.0"

          [dependencies]
          cross = "1.2.3"
        "#;

    let res = CrossToml::parse_from_cargo(test_str)?;
    assert!(res.is_none());

    Ok(())
}

#[test]
pub fn parse_from_cargo_toml() -> Result<(), ConfigError> {
    let cfg = CrossToml {
        targets: Vec::new(),
        build: CrossBuildConfig {
            env: CrossEnvConfig {
                passthrough: None,
                volumes: None,
            },
            build_std: None,
            xargo: Some(true),
            default_target: None,
            pre_build: None,
            dockerfile: None,
        },
    };

    let test_str = r#"
          [package]
          name = "cargo_toml_test_package"
          version = "0.1.0"

          [dependencies]
          cross = "1.2.3"

          [package.metadata.cross.build]
          xargo = true
        "#;

    if let Some((parsed_cfg, _unused)) = CrossToml::parse_from_cargo(test_str)? {
        assert_eq!(parsed_cfg, cfg);
    } else {
        panic!("Parsing result is None");
    }

    Ok(())
}

#[test]
pub fn merge() -> Result<(), ConfigError> {
    let targets1 = vec![
        (
            Target::BuiltIn {
                triple: s("aarch64-unknown-linux-gnu"),
            },
            target_cfg_with("VAR1", "VOL1_ARG", true, "test-image1"),
        ),
        (
            Target::Custom {
                triple: s("target2"),
            },
            target_cfg_with("VAR2", "VOL2_ARG", true, "test-image2"),
        ),
    ];

    let targets2 = vec![
        (
            Target::Custom {
                triple: s("target2"),
            },
            target_cfg_with(
                "VAR2_PRECEDENCE",
                "VOL2_ARG_PRECEDENCE",
                false,
                "test-image2-precedence",
            ),
        ),
        (
            Target::Custom {
                triple: s("target3"),
            },
            target_cfg_with("VAR3", "VOL3_ARG", true, "test-image3"),
        ),
    ];

    // Defines the base config
    let cfg1 = CrossToml {
        targets: targets1,
        build: CrossBuildConfig {
            env: CrossEnvConfig {
                passthrough: Some(vec![s("VAR1"), s("VAR2")]),
                volumes: Some(vec![]),
            },
            build_std: Some(true),
            xargo: Some(true),
            default_target: None,
            pre_build: None,
            dockerfile: None,
        },
    };

    // Defines the config that is to be merged into cfg1
    let cfg2 = CrossToml {
        targets: targets2,
        build: CrossBuildConfig {
            env: CrossEnvConfig {
                passthrough: Some(vec![s("VAR3"), s("VAR4")]),
                volumes: Some(vec![]),
            },
            build_std: None,
            xargo: Some(false),
            default_target: Some(s("aarch64-unknown-linux-gnu")),
            pre_build: None,
            dockerfile: None,
        },
    };

    // Defines the expected targets after the merge
    let targets_expected = vec![
        (
            Target::BuiltIn {
                triple: s("aarch64-unknown-linux-gnu"),
            },
            target_cfg_with("VAR1", "VOL1_ARG", true, "test-image1"),
        ),
        (
            Target::Custom {
                triple: s("target2"),
            },
            target_cfg_with(
                "VAR2_PRECEDENCE",
                "VOL2_ARG_PRECEDENCE",
                false,
                "test-image2-precedence",
            ),
        ),
        (
            Target::Custom {
                triple: s("target3"),
            },
            target_cfg_with("VAR3", "VOL3_ARG", true, "test-image3"),
        ),
    ];

    let cfg_expected = CrossToml {
        targets: targets_expected,
        build: CrossBuildConfig {
            env: CrossEnvConfig {
                passthrough: Some(vec![s("VAR3"), s("VAR4")]),
                volumes: Some(vec![]),
            },
            build_std: Some(true),
            xargo: Some(false),
            default_target: Some(s("aarch64-unknown-linux-gnu")),
            pre_build: None,
            dockerfile: None,
        },
    };

    let cfg_merged = cfg1.merge(cfg2).unwrap();
    assert_eq!(cfg_expected, cfg_merged);

    Ok(())
}

fn custom(t: &str) -> Target {
    Target::Custom { triple: s(t) }
}

fn lookup(v: &[(String, String)], k: &str) -> Option<String> {
    v.iter().find(|(a, _)| a == k).map(|(_, b)| b.clone())
}

#[test]
fn unknown_keys_are_reported_and_parsing_succeeds() {
    let text = r#"
        foo = 1
        [build]
        xargo = true
        bar = "x"
        [build.env]
        extra = []
        [target.t1]
        image = "img"
        baz = true
    "#;
    let (cfg, unused) = CrossToml::parse(text).unwrap();
    assert_eq!(unused, vec![s("build.bar"), s("build.env.extra"), s("foo"), s("target.t1.baz")]);
    assert_eq!(cfg.xargo(&custom("t1")), (Some(true), None));
    assert_eq!(cfg.image(&custom("t1")), Some(s("img")));
}

#[test]
fn xargo_is_reported_per_layer() {
    let text = r#"
        [build]
        xargo = true
        [target.T]
        xargo = false
    "#;
    let (cfg, _) = CrossToml::parse(text).unwrap();
    assert_eq!(cfg.xargo(&custom("T")), (Some(true), Some(false)));
    assert_eq!(cfg.xargo(&custom("other")), (Some(true), None));
}

#[test]
fn build_args_target_wins_on_collision() {
    let text = r#"
        [build.dockerfile]
        file = "Dockerfile"
        build-args = { A = "1", B = "2" }
        [target.T.dockerfile]
        file = "Dockerfile.t"
        build-args = { B = "3", C = "4" }
    "#;
    let (cfg, unused) = CrossToml::parse(text).unwrap();
    assert!(unused.is_empty());
    let args = cfg.dockerfile_build_args(&custom("T")).unwrap();
    assert_eq!(args.len(), 3);
    assert_eq!(lookup(&args, "A"), Some(s("1")));
    assert_eq!(lookup(&args, "B"), Some(s("3")));
    assert_eq!(lookup(&args, "C"), Some(s("4")));
    let base = cfg.dockerfile_build_args(&custom("U")).unwrap();
    assert_eq!(base.len(), 2);
    assert_eq!(lookup(&base, "B"), Some(s("2")));
    assert_eq!(cfg.dockerfile(&custom("T")), Some(s("Dockerfile.t")));
    assert_eq!(cfg.dockerfile(&custom("U")), Some(s("Dockerfile")));
}

#[test]
fn dockerfile_bare_string_equals_table() {
    let (a, _) = CrossToml::parse("[build]\ndockerfile = \"Dockerfile.x\"\n").unwrap();
    let (b, _) = CrossToml::parse("[build.dockerfile]\nfile = \"Dockerfile.x\"\n").unwrap();
    assert_eq!(a, b);
    assert_eq!(
        a.build.dockerfile,
        Some(CrossTargetDockerfileConfig {
            file: s("Dockerfile.x"),
            context: None,
            build_args: None,
        })
    );
}

#[test]
fn dockerfile_context_prefers_target() {
    let text = r#"
        [build.dockerfile]
        file = "a"
        context = "ctx-build"
        [target.T.dockerfile]
        file = "b"
    "#;
    let (cfg, _) = CrossToml::parse(text).unwrap();
    assert_eq!(cfg.dockerfile_context(&custom("T")), Some(s("ctx-build")));
    assert_eq!(cfg.runner(&custom("T")), None);
}

#[test]
fn wrong_shape_is_an_error() {
    let err = CrossToml::parse("[build]\nxargo = \"yes\"\n").unwrap_err();
    assert_eq!(err, ConfigError::InvalidType { path: s("build.xargo") });
    let err = CrossToml::parse("[build.env]\nvolumes = [1]\n").unwrap_err();
    assert_eq!(err, ConfigError::InvalidType { path: s("build.env.volumes") });
    let err = CrossToml::parse("[target.T.dockerfile]\ncontext = \"c\"\n").unwrap_err();
    assert_eq!(err, ConfigError::MissingField { path: s("target.T.dockerfile.file") });
    let err = CrossToml::parse("target = 3\n").unwrap_err();
    assert_eq!(err, ConfigError::InvalidType { path: s("target") });
}

#[test]
fn syntax_error_is_reported() {
    let err = CrossToml::parse("[build\nxargo = true").unwrap_err();
    assert!(matches!(err, ConfigError::Syntax { .. }));
    let err = CrossToml::parse_from_cargo("[package").unwrap_err();
    assert!(matches!(err, ConfigError::Syntax { .. }));
}

#[test]
fn from_toml_on_built_tree() {
    let tree = TomlValue::Table(vec![(
        s("build"),
        TomlValue::Table(vec![
            (s("build-std"), TomlValue::Bool(true)),
            (s("default-target"), TomlValue::Str(s("x86_64-unknown-linux-gnu"))),
            (s("weird"), TomlValue::Other),
        ]),
    )]);
    let (cfg, unused) = CrossToml::from_toml(&tree).unwrap();
    assert_eq!(unused, vec![s("build.weird")]);
    assert_eq!(cfg.build_std(&custom("x")), (Some(true), None));
    let list = TargetList {
        triples: vec![s("x86_64-unknown-linux-gnu")],
    };
    let t = cfg.default_target(&list).unwrap();
    assert!(matches!(t, Target::BuiltIn { .. }));
    assert_eq!(t.triple(), "x86_64-unknown-linux-gnu");
    assert!(CrossToml::from_toml(&TomlValue::Bool(true)).is_err());
}

#[test]
fn empty_manifest_table_is_no_configuration() {
    let tree = TomlValue::Table(vec![(
        s("package"),
        TomlValue::Table(vec![(s("metadata"), TomlValue::Table(vec![]))]),
    )]);
    assert_eq!(CrossToml::from_cargo_toml(&tree), Ok(None));
}

#[test]
fn list_accessors_keep_both_layers() {
    let text = r#"
        [build]
        pre-build = ["a"]
        [build.env]
        passthrough = ["P"]
        volumes = ["V"]
        [target.T]
        pre-build = ["b"]
        [target.T.env]
        volumes = ["W"]
    "#;
    let (cfg, _) = CrossToml::parse(text).unwrap();
    let t = custom("T");
    let (b, tt) = cfg.pre_build(&t);
    assert_eq!(b.unwrap(), &[s("a")][..]);
    assert_eq!(tt.unwrap(), &[s("b")][..]);
    let (b, tt) = cfg.env_passthrough(&t);
    assert_eq!(b.unwrap(), &[s("P")][..]);
    assert!(tt.is_none());
    let (b, tt) = cfg.env_volumes(&t);
    assert_eq!(b.unwrap(), &[s("V")][..]);
    assert_eq!(tt.unwrap(), &[s("W")][..]);
}

#[test]
fn targets_compare_by_triple() {
    assert_eq!(
        Target::BuiltIn { triple: s("a") },
        Target::Custom { triple: s("a") }
    );
    assert_ne!(Target::Custom { triple: s("a") }, Target::Custom { triple: s("b") });
}

#[test]
fn to_toml_reads_back_the_same() {
    let text = r#"
        [build]
        xargo = true
        default-target = "x86_64-unknown-linux-gnu"
        pre-build = ["apt-get update"]
        [build.env]
        passthrough = ["A", "B"]
        [build.dockerfile]
        file = "Dockerfile"
        context = "."
        build-args = { K = "V" }
        [target.T]
        image = "img"
        runner = "qemu"
        build-std = false
        [target.U]
        dockerfile = "Dockerfile.u"
    "#;
    let (cfg, unused) = CrossToml::parse(text).unwrap();
    assert!(unused.is_empty());
    let (again, unused) = CrossToml::from_toml(&cfg.to_toml()).unwrap();
    assert!(unused.is_empty());
    assert_eq!(again, cfg);
}

#[test]
fn unused_warning_lists_paths() {
    assert_eq!(CrossToml::unused_warning(&vec![]), None);
    assert_eq!(
        CrossToml::unused_warning(&vec![s("build.foo"), s("bar"), s("bar")]),
        Some(s("Warning: found unused key(s) in Cross configuration:\n > bar, build.foo"))
    );
}

#[test]
fn unused_paths_come_back_sorted() {
    let (_, unused) = CrossToml::parse("foo = 1\n[build]\nbar = 1\n").unwrap();
    assert_eq!(unused, vec![s("build.bar"), s("foo")]);
    assert_eq!(
        CrossToml::unused_warning(&unused),
        Some(s("Warning: found unused key(s) in Cross configuration:\n > build.bar, foo"))
    );
}

#[test]
fn equality_ignores_target_order() {
    let t = |n: &str| (custom(n), target_cfg_with("P", "V", true, n));
    let a = CrossToml {
        targets: vec![t("x"), t("y")],
        build: CrossBuildConfig::default(),
    };
    let b = CrossToml {
        targets: vec![t("y"), t("x")],
        build: CrossBuildConfig::default(),
    };
    let c = CrossToml {
        targets: vec![t("y")],
        build: CrossBuildConfig::default(),
    };
    assert_eq!(a, b);
    assert_ne!(a, c);
}

#[test]
fn dockerfile_from_path_alone() {
    assert_eq!(
        CrossTargetDockerfileConfig::from_str("Dockerfile.arm"),
        CrossTargetDockerfileConfig {
            file: s("Dockerfile.arm"),
            context: None,
            build_args: None,
        }
    );
}

#[test]
fn target_from_known_and_unknown_triples() {
    let list = TargetList {
        triples: vec![s("aarch64-unknown-linux-gnu")],
    };
    assert!(matches!(
        Target::from("aarch64-unknown-linux-gnu", &list),
        Target::BuiltIn { .. }
    ));
    let t = Target::from("my-board", &list);
    assert!(matches!(t, Target::Custom { .. }));
    assert_eq!(t.triple(), "my-board");
}
