use cross_core::{CargoMetadata, Dockerfile, ImageError, Target, CROSS_CUSTOM_DOCKERFILE_IMAGE_PREFIX};

fn s(x: &str) -> String {
    x.to_string()
}

fn meta(root: &str) -> CargoMetadata {
    CargoMetadata {
        workspace_root: s(root),
        target_directory: format!("{root}/target"),
    }
}

fn file_df(name: Option<&str>, context: Option<&str>) -> Dockerfile {
    Dockerfile::File {
        path: s("Dockerfile"),
        context: context.map(s),
        name: name.map(s),
    }
}

#[test]
fn image_name_uses_given_name() {
    let t = Target::Custom { triple: s("t") };
    let df = file_df(Some("my-image"), None);
    assert_eq!(df.image_name(&t, &meta("/a/proj")), Ok(s("my-image")));
}

#[test]
fn image_name_is_deterministic_and_hash_separates_roots() {
    let t = Target::BuiltIn {
        triple: s("aarch64-unknown-linux-gnu"),
    };
    let df = file_df(None, None);
    let a1 = df.image_name(&t, &meta("/one/proj")).unwrap();
    let a2 = df.image_name(&t, &meta("/one/proj")).unwrap();
    let b = df.image_name(&t, &meta("/two/proj")).unwrap();
    assert_eq!(a1, a2);
    assert_ne!(a1, b);
    let prefix = format!("{CROSS_CUSTOM_DOCKERFILE_IMAGE_PREFIX}proj:aarch64-unknown-linux-gnu-");
    assert!(a1.starts_with(&prefix));
    assert_eq!(a1.len(), prefix.len() + 5);
    let custom = Dockerfile::Custom { content: s("FROM x") };
    let c = custom.image_name(&t, &meta("/one/proj")).unwrap();
    assert_eq!(c, format!("{a1}-pre-build"));
}

#[test]
fn image_name_hash_is_sha1_prefix() {
    // SHA-1 of "abc" starts with a9993
    let t = Target::Custom { triple: s("t") };
    let df = file_df(None, None);
    let mut m = meta("abc");
    m.workspace_root = s("abc");
    assert_eq!(df.image_name(&t, &m), Ok(s("cross-custom-abc:t-a9993")));
}

#[test]
fn image_name_errors() {
    let t = Target::Custom { triple: s("t") };
    let df = file_df(None, None);
    assert_eq!(df.image_name(&t, &meta("/")), Err(ImageError::NoWorkspaceName));
    let long = format!("/{}", "x".repeat(1100));
    assert_eq!(df.image_name(&t, &meta(&long)), Err(ImageError::PathTooLong));
}

#[test]
fn context_only_for_file() {
    assert_eq!(file_df(None, Some("ctx")).context(), Some(s("ctx")));
    assert_eq!(Dockerfile::Custom { content: s("x") }.context(), None);
}

#[test]
fn docker_opts_split_at_whitespace() {
    let t = Target::Custom { triple: s("mytarget") };
    let custom = Dockerfile::Custom { content: s("FROM x") };
    let args = custom.build_command_args(
        &meta("/w"),
        &t,
        "i",
        &vec![],
        None,
        "F",
        Some("  --network host\t--pull \"a b\" "),
    );
    assert_eq!(
        args[10..].to_vec(),
        vec![s("--network"), s("host"), s("--pull"), s("\"a"), s("b\""), s(".")]
    );
}

#[test]
fn custom_dockerfile_path_is_under_target_dir() {
    let t = Target::Custom { triple: s("armv7-x") };
    let p = Dockerfile::custom_dockerfile_path(&meta("/w"), &t);
    assert_eq!(p, "/w/target/armv7-x/Dockerfile.armv7-x-custom");
}

#[test]
fn build_command_args_in_order() {
    let t = Target::BuiltIn {
        triple: s("aarch64-unknown-linux-gnu"),
    };
    let df = file_df(None, Some("ctx"));
    let args = df.build_command_args(
        &meta("/w"),
        &t,
        "img:tag",
        &vec![(s("K"), s("V"))],
        Some(s("base:1")),
        "Dockerfile",
        Some("--pull"),
    );
    let expected: Vec<String> = [
        "--platform",
        "linux/amd64",
        "--label",
        "org.cross-rs.for-cross-target=aarch64-unknown-linux-gnu",
        "--label",
        "org.cross-rs.workspace_root=/w",
        "--tag",
        "img:tag",
        "--build-arg",
        "K=V",
        "--build-arg",
        "CROSS_DEB_ARCH=arm64",
        "--build-arg",
        "CROSS_BASE_IMAGE=base:1",
        "--file",
        "Dockerfile",
        "--pull",
        "ctx",
    ]
    .iter()
    .map(|x| s(x))
    .collect();
    assert_eq!(args, expected);

    let custom = Dockerfile::Custom { content: s("FROM x") };
    let t2 = Target::Custom { triple: s("mytarget") };
    let args = custom.build_command_args(&meta("/w"), &t2, "i", &vec![], Some(s("b")), "F", None);
    assert_eq!(args.len(), 11);
    assert_eq!(args[8], "--file");
    assert_eq!(args[10], ".");
}

#[test]
fn deb_arch_known_and_unknown() {
    assert_eq!(Target::Custom { triple: s("x86_64-unknown-linux-gnu") }.deb_arch(), Some("amd64"));
    assert_eq!(Target::Custom { triple: s("wasm32-unknown-unknown") }.deb_arch(), None);
}
