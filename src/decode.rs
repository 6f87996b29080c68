use vstd::prelude::*;

use crate::cross_toml::{
    dockerfile_wf, keys_unique, opt_dockerfile, opt_str, opt_strs, pairs_map, BuildView,
    CrossBuildConfig, CrossEnvConfig, CrossTargetConfig, CrossTargetDockerfileConfig, CrossToml,
    CrossTomlView, DockerfileView, EnvView, TargetConfigView,
};
use crate::order::{sort_paths, strictly_sorted};
use crate::target::Target;
use crate::toml_value::{
    read_toml, toml_document, get, join_path, make_path, push_unknown_keys, strs, table_get, unknown_keys, ConfigError,
    DecodeError, TomlValue,
};

verus! {

pub open spec fn deref_opt(v: Option<&TomlValue>) -> Option<TomlValue> {
    match v {
        Some(x) => Some(*x),
        None => None,
    }
}

pub open spec fn str_of(v: TomlValue) -> Seq<char> {
    match v {
        TomlValue::Str(s) => s@,
        _ => Seq::empty(),
    }
}

pub open spec fn dec_bool(v: Option<TomlValue>, path: Seq<char>) -> Result<Option<bool>, DecodeError> {
    match v {
        None => Ok(None),
        Some(TomlValue::Bool(b)) => Ok(Some(b)),
        Some(_) => Err(DecodeError::InvalidType(path)),
    }
}

pub open spec fn dec_str(v: Option<TomlValue>, path: Seq<char>) -> Result<
    Option<Seq<char>>,
    DecodeError,
> {
    match v {
        None => Ok(None),
        Some(TomlValue::Str(s)) => Ok(Some(s@)),
        Some(_) => Err(DecodeError::InvalidType(path)),
    }
}

/// Every item is a string.
pub open spec fn all_str(a: Seq<TomlValue>) -> bool {
    forall|i: int| 0 <= i < a.len() ==> a[i] is Str
}

pub open spec fn dec_strs(v: Option<TomlValue>, path: Seq<char>) -> Result<
    Option<Seq<Seq<char>>>,
    DecodeError,
> {
    match v {
        None => Ok(None),
        Some(TomlValue::Array(a)) => if all_str(a@) {
            Ok(Some(a@.map_values(|e: TomlValue| str_of(e))))
        } else {
            Err(DecodeError::InvalidType(path))
        },
        Some(_) => Err(DecodeError::InvalidType(path)),
    }
}

/// The map of a table whose values are strings; a later key wins.
pub open spec fn str_entries_map(t: Seq<(String, TomlValue)>) -> Map<Seq<char>, Seq<char>>
    decreases t.len(),
{
    if t.len() == 0 {
        Map::empty()
    } else {
        str_entries_map(t.drop_last()).insert(t.last().0@, str_of(t.last().1))
    }
}

pub open spec fn dec_args(v: Option<TomlValue>, path: Seq<char>) -> Result<
    Option<Map<Seq<char>, Seq<char>>>,
    DecodeError,
> {
    match v {
        None => Ok(None),
        Some(TomlValue::Table(t)) => if forall|i: int| 0 <= i < t@.len() ==> t@[i].1 is Str {
            Ok(Some(str_entries_map(t@)))
        } else {
            Err(DecodeError::InvalidType(path))
        },
        Some(_) => Err(DecodeError::InvalidType(path)),
    }
}

pub open spec fn env_keys() -> Seq<Seq<char>> {
    seq!["volumes"@, "passthrough"@]
}

pub open spec fn dec_env(v: Option<TomlValue>, path: Seq<char>) -> Result<
    (EnvView, Seq<Seq<char>>),
    DecodeError,
> {
    match v {
        None => Ok((EnvView { volumes: None, passthrough: None }, Seq::empty())),
        Some(TomlValue::Table(t)) => match dec_strs(
            table_get(t@, "volumes"@),
            join_path(path, "volumes"@),
        ) {
            Err(e) => Err(e),
            Ok(volumes) => match dec_strs(
                table_get(t@, "passthrough"@),
                join_path(path, "passthrough"@),
            ) {
                Err(e) => Err(e),
                Ok(passthrough) => Ok(
                    (
                        EnvView { volumes, passthrough },
                        unknown_keys(t@, env_keys(), path),
                    ),
                ),
            },
        },
        Some(_) => Err(DecodeError::InvalidType(path)),
    }
}

pub open spec fn dockerfile_keys() -> Seq<Seq<char>> {
    seq!["file"@, "context"@, "build-args"@]
}

/// A build-file field: a bare string is the file alone; a table is decoded field by field.
pub open spec fn dec_dockerfile(v: Option<TomlValue>, path: Seq<char>) -> Result<
    (Option<DockerfileView>, Seq<Seq<char>>),
    DecodeError,
> {
    match v {
        None => Ok((None, Seq::empty())),
        Some(TomlValue::Str(s)) => Ok(
            (Some(DockerfileView { file: s@, context: None, build_args: None }), Seq::empty()),
        ),
        Some(TomlValue::Table(t)) => match table_get(t@, "file"@) {
            None => Err(DecodeError::MissingField(join_path(path, "file"@))),
            Some(TomlValue::Str(file)) => match dec_str(
                table_get(t@, "context"@),
                join_path(path, "context"@),
            ) {
                Err(e) => Err(e),
                Ok(context) => match dec_args(
                    table_get(t@, "build-args"@),
                    join_path(path, "build-args"@),
                ) {
                    Err(e) => Err(e),
                    Ok(build_args) => Ok(
                        (
                            Some(DockerfileView { file: file@, context, build_args }),
                            unknown_keys(t@, dockerfile_keys(), path),
                        ),
                    ),
                },
            },
            Some(_) => Err(DecodeError::InvalidType(join_path(path, "file"@))),
        },
        Some(_) => Err(DecodeError::InvalidType(path)),
    }
}

pub open spec fn build_keys() -> Seq<Seq<char>> {
    seq!["env"@, "xargo"@, "build-std"@, "default-target"@, "pre-build"@, "dockerfile"@]
}

pub open spec fn default_build() -> BuildView {
    BuildView {
        env: EnvView { volumes: None, passthrough: None },
        xargo: None,
        build_std: None,
        default_target: None,
        pre_build: None,
        dockerfile: None,
    }
}

pub open spec fn dec_build(v: Option<TomlValue>, path: Seq<char>) -> Result<
    (BuildView, Seq<Seq<char>>),
    DecodeError,
> {
    match v {
        None => Ok((default_build(), Seq::empty())),
        Some(TomlValue::Table(t)) => {
            let t = t@;
            match dec_env(table_get(t, "env"@), join_path(path, "env"@)) {
                Err(e) => Err(e),
                Ok((env, env_unused)) => match dec_bool(
                    table_get(t, "xargo"@),
                    join_path(path, "xargo"@),
                ) {
                    Err(e) => Err(e),
                    Ok(xargo) => match dec_bool(
                        table_get(t, "build-std"@),
                        join_path(path, "build-std"@),
                    ) {
                        Err(e) => Err(e),
                        Ok(build_std) => match dec_str(
                            table_get(t, "default-target"@),
                            join_path(path, "default-target"@),
                        ) {
                            Err(e) => Err(e),
                            Ok(default_target) => match dec_strs(
                                table_get(t, "pre-build"@),
                                join_path(path, "pre-build"@),
                            ) {
                                Err(e) => Err(e),
                                Ok(pre_build) => match dec_dockerfile(
                                    table_get(t, "dockerfile"@),
                                    join_path(path, "dockerfile"@),
                                ) {
                                    Err(e) => Err(e),
                                    Ok((dockerfile, dockerfile_unused)) => Ok(
                                        (
                                            BuildView {
                                                env,
                                                xargo,
                                                build_std,
                                                default_target,
                                                pre_build,
                                                dockerfile,
                                            },
                                            unknown_keys(t, build_keys(), path) + env_unused
                                                + dockerfile_unused,
                                        ),
                                    ),
                                },
                            },
                        },
                    },
                },
            }
        },
        Some(_) => Err(DecodeError::InvalidType(path)),
    }
}

/// `r` lists the paths of `u` in sorted order, each once.
pub open spec fn reports(r: Seq<Seq<char>>, u: Seq<Seq<char>>) -> bool {
    strictly_sorted(r) && r.to_set() == u.to_set()
}

/// How a decoded value relates to its meaning: equal views on success, the same
/// failure otherwise.
pub open spec fn agrees<T, U>(
    r: Result<T, ConfigError>,
    s: Result<U, DecodeError>,
    f: spec_fn(T) -> U,
) -> bool {
    match (r, s) {
        (Ok(a), Ok(b)) => f(a) == b,
        (Err(e), Err(d)) => e.decoded() == Some(d),
        _ => false,
    }
}

fn invalid(parent: &str, key: &str) -> (e: ConfigError)
    ensures
        e.decoded() == Some(DecodeError::InvalidType(join_path(parent@, key@))),
{
    ConfigError::InvalidType { path: make_path(parent, key) }
}

fn read_bool(t: &Vec<(String, TomlValue)>, parent: &str, key: &str) -> (r: Result<
    Option<bool>,
    ConfigError,
>)
    ensures
        agrees(
            r,
            dec_bool(table_get(t@, key@), join_path(parent@, key@)),
            |x: Option<bool>| x,
        ),
{
    match get(t, key) {
        None => Ok(None),
        Some(TomlValue::Bool(b)) => Ok(Some(*b)),
        Some(_) => Err(invalid(parent, key)),
    }
}

fn read_str(t: &Vec<(String, TomlValue)>, parent: &str, key: &str) -> (r: Result<
    Option<String>,
    ConfigError,
>)
    ensures
        agrees(
            r,
            dec_str(table_get(t@, key@), join_path(parent@, key@)),
            |x: Option<String>| opt_str(x),
        ),
{
    match get(t, key) {
        None => Ok(None),
        Some(TomlValue::Str(s)) => Ok(Some(s.clone())),
        Some(_) => Err(invalid(parent, key)),
    }
}

fn read_strs(t: &Vec<(String, TomlValue)>, parent: &str, key: &str) -> (r: Result<
    Option<Vec<String>>,
    ConfigError,
>)
    ensures
        agrees(
            r,
            dec_strs(table_get(t@, key@), join_path(parent@, key@)),
            |x: Option<Vec<String>>| opt_strs(x),
        ),
{
    match get(t, key) {
        None => Ok(None),
        Some(TomlValue::Array(a)) => {
            let mut out: Vec<String> = Vec::new();
            let mut i: usize = 0;
            while i < a.len()
                invariant
                    i <= a@.len(),
                    table_get(t@, key@) == Some(TomlValue::Array(*a)),
                    forall|j: int| 0 <= j < i ==> a@[j] is Str,
                    strs(out@) == a@.take(i as int).map_values(|e: TomlValue| str_of(e)),
                decreases a@.len() - i,
            {
                match &a[i] {
                    TomlValue::Str(s) => {
                        assert(str_of(a@[i as int]) == s@);
                        let ghost before = out@;
                        out.push(s.clone());
                        proof {
                            assert(strs(out@) =~= strs(before).push(s@));
                            assert(a@.take(i + 1).map_values(|e: TomlValue| str_of(e))
                                =~= a@.take(i as int).map_values(|e: TomlValue| str_of(e)).push(
                                str_of(a@[i as int]),
                            ));
                        }
                    },
                    _ => {
                        assert(!(a@[i as int] is Str));
                        return Err(invalid(parent, key));
                    },
                }
                i = i + 1;
            }
            assert(a@.take(i as int) =~= a@);
            Ok(Some(out))
        },
        Some(_) => Err(invalid(parent, key)),
    }
}

pub open spec fn target_keys() -> Seq<Seq<char>> {
    seq!["xargo"@, "build-std"@, "image"@, "dockerfile"@, "pre-build"@, "runner"@, "env"@]
}

pub open spec fn dec_target_cfg(v: TomlValue, path: Seq<char>) -> Result<
    (TargetConfigView, Seq<Seq<char>>),
    DecodeError,
> {
    match v {
        TomlValue::Table(t) => {
            let t = t@;
            match dec_bool(table_get(t, "xargo"@), join_path(path, "xargo"@)) {
                Err(e) => Err(e),
                Ok(xargo) => match dec_bool(
                    table_get(t, "build-std"@),
                    join_path(path, "build-std"@),
                ) {
                    Err(e) => Err(e),
                    Ok(build_std) => match dec_str(
                        table_get(t, "image"@),
                        join_path(path, "image"@),
                    ) {
                        Err(e) => Err(e),
                        Ok(image) => match dec_dockerfile(
                            table_get(t, "dockerfile"@),
                            join_path(path, "dockerfile"@),
                        ) {
                            Err(e) => Err(e),
                            Ok((dockerfile, dockerfile_unused)) => match dec_strs(
                                table_get(t, "pre-build"@),
                                join_path(path, "pre-build"@),
                            ) {
                                Err(e) => Err(e),
                                Ok(pre_build) => match dec_str(
                                    table_get(t, "runner"@),
                                    join_path(path, "runner"@),
                                ) {
                                    Err(e) => Err(e),
                                    Ok(runner) => match dec_env(
                                        table_get(t, "env"@),
                                        join_path(path, "env"@),
                                    ) {
                                        Err(e) => Err(e),
                                        Ok((env, env_unused)) => Ok(
                                            (
                                                TargetConfigView {
                                                    xargo,
                                                    build_std,
                                                    image,
                                                    dockerfile,
                                                    pre_build,
                                                    runner,
                                                    env,
                                                },
                                                unknown_keys(t, target_keys(), path)
                                                    + dockerfile_unused + env_unused,
                                            ),
                                        ),
                                    },
                                },
                            },
                        },
                    },
                },
            }
        },
        _ => Err(DecodeError::InvalidType(path)),
    }
}

/// The targets of a `target` table, entry by entry; a later triple wins.
pub open spec fn dec_target_entries(t: Seq<(String, TomlValue)>) -> Result<
    (Map<Seq<char>, TargetConfigView>, Seq<Seq<char>>),
    DecodeError,
>
    decreases t.len(),
{
    if t.len() == 0 {
        Ok((Map::empty(), Seq::empty()))
    } else {
        match dec_target_entries(t.drop_last()) {
            Err(e) => Err(e),
            Ok((m, u)) => match dec_target_cfg(t.last().1, join_path("target"@, t.last().0@)) {
                Err(e) => Err(e),
                Ok((c, cu)) => Ok((m.insert(t.last().0@, c), u + cu)),
            },
        }
    }
}

pub open spec fn dec_targets(v: Option<TomlValue>) -> Result<
    (Map<Seq<char>, TargetConfigView>, Seq<Seq<char>>),
    DecodeError,
> {
    match v {
        None => Ok((Map::empty(), Seq::empty())),
        Some(TomlValue::Table(t)) => dec_target_entries(t@),
        Some(_) => Err(DecodeError::InvalidType("target"@)),
    }
}

pub open spec fn cross_keys() -> Seq<Seq<char>> {
    seq!["target"@, "build"@]
}

/// What a configuration document means, and the paths of the keys it does not use.
pub open spec fn dec_cross(v: TomlValue) -> Result<(CrossTomlView, Seq<Seq<char>>), DecodeError> {
    match v {
        TomlValue::Table(t) => match dec_targets(table_get(t@, "target"@)) {
            Err(e) => Err(e),
            Ok((targets, targets_unused)) => match dec_build(table_get(t@, "build"@), "build"@) {
                Err(e) => Err(e),
                Ok((build, build_unused)) => Ok(
                    (
                        CrossTomlView { targets, build },
                        unknown_keys(t@, cross_keys(), Seq::empty()) + targets_unused
                            + build_unused,
                    ),
                ),
            },
        },
        _ => Err(DecodeError::InvalidType(Seq::empty())),
    }
}

/// The `package.metadata.cross` table of a manifest, if it has one.
pub open spec fn cargo_cross(v: TomlValue) -> Option<TomlValue> {
    match v {
        TomlValue::Table(t) => match table_get(t@, "package"@) {
            Some(TomlValue::Table(p)) => match table_get(p@, "metadata"@) {
                Some(TomlValue::Table(m)) => table_get(m@, "cross"@),
                _ => None,
            },
            _ => None,
        },
        _ => None,
    }
}

fn read_args(t: &Vec<(String, TomlValue)>, parent: &str, key: &str) -> (r: Result<
    Option<Vec<(String, String)>>,
    ConfigError,
>)
    ensures
        agrees(
            r,
            dec_args(table_get(t@, key@), join_path(parent@, key@)),
            |x: Option<Vec<(String, String)>>|
                match x {
                    Some(v) => Some(pairs_map(v@)),
                    None => None,
                },
        ),
        r matches Ok(Some(v)) ==> keys_unique(v@),
{
    match get(t, key) {
        None => Ok(None),
        Some(TomlValue::Table(a)) => {
            let mut out: Vec<(String, String)> = Vec::new();
            let mut i: usize = 0;
            while i < a.len()
                invariant
                    i <= a@.len(),
                    table_get(t@, key@) == Some(TomlValue::Table(*a)),
                    forall|j: int| 0 <= j < i ==> a@[j].1 is Str,
                    keys_unique(out@),
                    pairs_map(out@) == str_entries_map(a@.take(i as int)),
                decreases a@.len() - i,
            {
                assert(a@.take(i + 1).drop_last() =~= a@.take(i as int));
                match &a[i].1 {
                    TomlValue::Str(s) => {
                        let ghost before = out@;
                        let k = a[i].0.clone();
                        let one = vec![(k, s.clone())];
                        proof {
                            assert(one@.len() == 1);
                            assert(one@.last() == one@[0]);
                            assert(one@[0].0@ == a@[i as int].0@);
                            assert(one@[0].1@ == s@);
                            assert(one@.drop_last() =~= Seq::<(String, String)>::empty());
                            assert(pairs_map(Seq::<(String, String)>::empty()) =~= Map::empty());
                            assert(pairs_map(one@) =~= Map::empty().insert(a@[i as int].0@, s@));
                        }
                        out = crate::cross_toml::merge_entries(out, one);
                        proof {
                            assert(pairs_map(out@) =~= str_entries_map(a@.take(i + 1)));
                        }
                    },
                    _ => {
                        return Err(invalid(parent, key));
                    },
                }
                i = i + 1;
            }
            assert(a@.take(i as int) =~= a@);
            Ok(Some(out))
        },
        Some(_) => Err(invalid(parent, key)),
    }
}

fn read_env(v: Option<&TomlValue>, path: &str, unused: &mut Vec<String>) -> (r: Result<
    CrossEnvConfig,
    ConfigError,
>)
    ensures
        match dec_env(deref_opt(v), path@) {
            Ok((ev, u)) => r is Ok && r->Ok_0@ == ev && strs(final(unused)@) == strs(old(unused)@)
                + u,
            Err(d) => r is Err && r->Err_0.decoded() == Some(d),
        },
{
    match v {
        None => {
            assert(strs(unused@) =~= strs(unused@) + Seq::<Seq<char>>::empty());
            Ok(CrossEnvConfig { volumes: None, passthrough: None })
        },
        Some(TomlValue::Table(t)) => {
            let volumes = match read_strs(t, path, "volumes") {
                Ok(x) => x,
                Err(e) => return Err(e),
            };
            let passthrough = match read_strs(t, path, "passthrough") {
                Ok(x) => x,
                Err(e) => return Err(e),
            };
            let known: Vec<&str> = vec!["volumes", "passthrough"];
            assert(known@.map_values(|k: &str| k@) =~= env_keys());
            push_unknown_keys(t, &known, path, unused);
            Ok(CrossEnvConfig { volumes, passthrough })
        },
        Some(_) => Err(ConfigError::InvalidType { path: path.to_owned() }),
    }
}

fn read_dockerfile(v: Option<&TomlValue>, path: &str, unused: &mut Vec<String>) -> (r: Result<
    Option<CrossTargetDockerfileConfig>,
    ConfigError,
>)
    ensures
        match dec_dockerfile(deref_opt(v), path@) {
            Ok((dv, u)) => r is Ok && opt_dockerfile(r->Ok_0) == dv && dockerfile_wf(r->Ok_0)
                && strs(final(unused)@) == strs(old(unused)@) + u,
            Err(d) => r is Err && r->Err_0.decoded() == Some(d),
        },
{
    match v {
        None => {
            assert(strs(unused@) =~= strs(unused@) + Seq::<Seq<char>>::empty());
            Ok(None)
        },
        Some(TomlValue::Str(s)) => {
            assert(strs(unused@) =~= strs(unused@) + Seq::<Seq<char>>::empty());
            Ok(Some(CrossTargetDockerfileConfig::from_str(s.as_str())))
        },
        Some(TomlValue::Table(t)) => {
            let file = match get(t, "file") {
                None => return Err(ConfigError::MissingField { path: make_path(path, "file") }),
                Some(TomlValue::Str(f)) => f.clone(),
                Some(_) => return Err(invalid(path, "file")),
            };
            let context = match read_str(t, path, "context") {
                Ok(x) => x,
                Err(e) => return Err(e),
            };
            let build_args = match read_args(t, path, "build-args") {
                Ok(x) => x,
                Err(e) => return Err(e),
            };
            let known: Vec<&str> = vec!["file", "context", "build-args"];
            assert(known@.map_values(|k: &str| k@) =~= dockerfile_keys());
            push_unknown_keys(t, &known, path, unused);
            Ok(Some(CrossTargetDockerfileConfig { file, context, build_args }))
        },
        Some(_) => Err(ConfigError::InvalidType { path: path.to_owned() }),
    }
}

fn read_build(v: Option<&TomlValue>, path: &str, unused: &mut Vec<String>) -> (r: Result<
    CrossBuildConfig,
    ConfigError,
>)
    ensures
        match dec_build(deref_opt(v), path@) {
            Ok((bv, u)) => r is Ok && r->Ok_0@ == bv && dockerfile_wf(r->Ok_0.dockerfile)
                && strs(final(unused)@) == strs(old(unused)@) + u,
            Err(d) => r is Err && r->Err_0.decoded() == Some(d),
        },
{
    match v {
        None => {
            assert(strs(unused@) =~= strs(unused@) + Seq::<Seq<char>>::empty());
            Ok(
                CrossBuildConfig {
                    env: CrossEnvConfig { volumes: None, passthrough: None },
                    xargo: None,
                    build_std: None,
                    default_target: None,
                    pre_build: None,
                    dockerfile: None,
                },
            )
        },
        Some(TomlValue::Table(t)) => {
            let ghost u0 = strs(unused@);
            let known: Vec<&str> = vec![
                "env",
                "xargo",
                "build-std",
                "default-target",
                "pre-build",
                "dockerfile",
            ];
            assert(known@.map_values(|k: &str| k@) =~= build_keys());
            push_unknown_keys(t, &known, path, unused);
            let ghost u1 = strs(unused@);
            let env = match read_env(get(t, "env"), &make_path(path, "env"), unused) {
                Ok(x) => x,
                Err(e) => return Err(e),
            };
            let ghost u2 = strs(unused@);
            let xargo = match read_bool(t, path, "xargo") {
                Ok(x) => x,
                Err(e) => return Err(e),
            };
            let build_std = match read_bool(t, path, "build-std") {
                Ok(x) => x,
                Err(e) => return Err(e),
            };
            let default_target = match read_str(t, path, "default-target") {
                Ok(x) => x,
                Err(e) => return Err(e),
            };
            let pre_build = match read_strs(t, path, "pre-build") {
                Ok(x) => x,
                Err(e) => return Err(e),
            };
            let dockerfile = match read_dockerfile(
                get(t, "dockerfile"),
                &make_path(path, "dockerfile"),
                unused,
            ) {
                Ok(x) => x,
                Err(e) => return Err(e),
            };
            proof {
                let (_, eu) = dec_env(table_get(t@, "env"@), join_path(path@, "env"@))->Ok_0;
                let (_, du) = dec_dockerfile(
                    table_get(t@, "dockerfile"@),
                    join_path(path@, "dockerfile"@),
                )->Ok_0;
                assert(strs(unused@) =~= u0 + (unknown_keys(t@, build_keys(), path@) + eu + du));
            }
            Ok(CrossBuildConfig { env, xargo, build_std, default_target, pre_build, dockerfile })
        },
        Some(_) => Err(ConfigError::InvalidType { path: path.to_owned() }),
    }
}

fn read_target_cfg(v: &TomlValue, path: &str, unused: &mut Vec<String>) -> (r: Result<
    CrossTargetConfig,
    ConfigError,
>)
    ensures
        match dec_target_cfg(*v, path@) {
            Ok((cv, u)) => r is Ok && r->Ok_0@ == cv && dockerfile_wf(r->Ok_0.dockerfile)
                && strs(final(unused)@) == strs(old(unused)@) + u,
            Err(d) => r is Err && r->Err_0.decoded() == Some(d),
        },
{
    match v {
        TomlValue::Table(t) => {
            let ghost u0 = strs(unused@);
            let known: Vec<&str> = vec![
                "xargo",
                "build-std",
                "image",
                "dockerfile",
                "pre-build",
                "runner",
                "env",
            ];
            assert(known@.map_values(|k: &str| k@) =~= target_keys());
            push_unknown_keys(t, &known, path, unused);
            let xargo = match read_bool(t, path, "xargo") {
                Ok(x) => x,
                Err(e) => return Err(e),
            };
            let build_std = match read_bool(t, path, "build-std") {
                Ok(x) => x,
                Err(e) => return Err(e),
            };
            let image = match read_str(t, path, "image") {
                Ok(x) => x,
                Err(e) => return Err(e),
            };
            let dockerfile = match read_dockerfile(
                get(t, "dockerfile"),
                &make_path(path, "dockerfile"),
                unused,
            ) {
                Ok(x) => x,
                Err(e) => return Err(e),
            };
            let pre_build = match read_strs(t, path, "pre-build") {
                Ok(x) => x,
                Err(e) => return Err(e),
            };
            let runner = match read_str(t, path, "runner") {
                Ok(x) => x,
                Err(e) => return Err(e),
            };
            let env = match read_env(get(t, "env"), &make_path(path, "env"), unused) {
                Ok(x) => x,
                Err(e) => return Err(e),
            };
            proof {
                let (_, eu) = dec_env(table_get(t@, "env"@), join_path(path@, "env"@))->Ok_0;
                let (_, du) = dec_dockerfile(
                    table_get(t@, "dockerfile"@),
                    join_path(path@, "dockerfile"@),
                )->Ok_0;
                assert(strs(unused@) =~= u0 + (unknown_keys(t@, target_keys(), path@) + du + eu));
            }
            Ok(CrossTargetConfig { xargo, build_std, image, dockerfile, pre_build, runner, env })
        },
        _ => Err(ConfigError::InvalidType { path: path.to_owned() }),
    }
}

fn read_targets(v: Option<&TomlValue>, unused: &mut Vec<String>) -> (r: Result<
    Vec<(Target, CrossTargetConfig)>,
    ConfigError,
>)
    ensures
        match dec_targets(deref_opt(v)) {
            Ok((m, u)) => r is Ok && pairs_map(r->Ok_0@) == m && keys_unique(r->Ok_0@) && (forall|
                i: int,
            |
                0 <= i < r->Ok_0@.len() ==> dockerfile_wf(#[trigger] r->Ok_0@[i].1.dockerfile))
                && strs(final(unused)@) == strs(old(unused)@) + u,
            Err(d) => r is Err && r->Err_0.decoded() == Some(d),
        },
{
    match v {
        None => {
            assert(strs(unused@) =~= strs(unused@) + Seq::<Seq<char>>::empty());
            assert(pairs_map(Seq::<(Target, CrossTargetConfig)>::empty()) =~= Map::empty());
            Ok(Vec::new())
        },
        Some(TomlValue::Table(t)) => {
            let ghost u0 = strs(unused@);
            let mut out: Vec<(Target, CrossTargetConfig)> = Vec::new();
            let mut i: usize = 0;
            assert(pairs_map(Seq::<(Target, CrossTargetConfig)>::empty()) =~= Map::empty());
            assert(u0 =~= u0 + Seq::<Seq<char>>::empty());
            while i < t.len()
                invariant
                    i <= t@.len(),
                    deref_opt(v) == Some(TomlValue::Table(*t)),
                    dec_target_entries(t@.take(i as int)) is Ok,
                    pairs_map(out@) == dec_target_entries(t@.take(i as int))->Ok_0.0,
                    strs(unused@) == u0 + dec_target_entries(t@.take(i as int))->Ok_0.1,
                    keys_unique(out@),
                    forall|k: int|
                        0 <= k < out@.len() ==> dockerfile_wf(#[trigger] out@[k].1.dockerfile),
                decreases t@.len() - i,
            {
                assert(t@.take(i + 1).drop_last() =~= t@.take(i as int));
                assert(t@.take(i + 1).last() == t@[i as int]);
                let ghost before = strs(unused@);
                let path = make_path("target", t[i].0.as_str());
                proof {
                    reveal_strlit("target");
                }
                let cfg = match read_target_cfg(&t[i].1, &path, unused) {
                    Ok(c) => c,
                    Err(e) => {
                        assert(dec_target_entries(t@.take(i + 1)) is Err);
                        proof {
                            lemma_target_entries_err(t@, i as int + 1);
                        }
                        return Err(e);
                    },
                };
                let ghost cv = cfg@;
                let one = vec![(Target::Custom { triple: t[i].0.clone() }, cfg)];
                proof {
                    assert(one@.len() == 1);
                    assert(one@.last() == one@[0]);
                    assert(one@.drop_last() =~= Seq::<(Target, CrossTargetConfig)>::empty());
                    assert(pairs_map(Seq::<(Target, CrossTargetConfig)>::empty()) =~= Map::empty());
                    assert(pairs_map(one@) =~= Map::empty().insert(t@[i as int].0@, cv));
                    assert(dockerfile_wf(one@[0].1.dockerfile));
                }
                let ghost prev = out@;
                out = crate::cross_toml::merge_entries(out, one);
                proof {
                    assert(pairs_map(out@) =~= dec_target_entries(t@.take(i + 1))->Ok_0.0);
                    assert(strs(unused@) =~= u0 + dec_target_entries(t@.take(i + 1))->Ok_0.1);
                    assert forall|k: int| 0 <= k < out@.len() implies dockerfile_wf(
                        #[trigger] out@[k].1.dockerfile,
                    ) by {
                        if prev.contains(out@[k]) {
                            let x = choose|x: int| 0 <= x < prev.len() && prev[x] == out@[k];
                            assert(dockerfile_wf(prev[x].1.dockerfile));
                        } else {
                            let x = choose|x: int| 0 <= x < one@.len() && one@[x] == out@[k];
                            assert(x == 0);
                        }
                    }
                }
                i = i + 1;
            }
            assert(t@.take(i as int) =~= t@);
            Ok(out)
        },
        Some(_) => {
            proof {
                reveal_strlit("target");
            }
            Err(ConfigError::InvalidType { path: "target".to_owned() })
        },
    }
}

/// A failure on a prefix of the entries is a failure of the whole table.
proof fn lemma_target_entries_err(t: Seq<(String, TomlValue)>, n: int)
    requires
        0 <= n <= t.len(),
        dec_target_entries(t.take(n)) is Err,
    ensures
        dec_target_entries(t) == dec_target_entries(t.take(n)),
    decreases t.len(),
{
    if n < t.len() {
        assert(t.drop_last().take(n) =~= t.take(n));
        lemma_target_entries_err(t.drop_last(), n);
    } else {
        assert(t.take(n) =~= t);
    }
}

impl CrossToml {
    /// Reads the configuration from a TOML document, with the paths of the keys
    /// that no field of the configuration uses.
    pub fn from_toml(v: &TomlValue) -> (r: Result<(CrossToml, Vec<String>), ConfigError>)
        ensures
            match dec_cross(*v) {
                Ok((c, u)) => r is Ok && r->Ok_0.0@ == c && r->Ok_0.0.wf() && reports(strs(r->Ok_0.1@), u),
                Err(d) => r is Err && r->Err_0.decoded() == Some(d),
            },
    {
        match v {
            TomlValue::Table(t) => {
                let mut unused: Vec<String> = Vec::new();
                let known: Vec<&str> = vec!["target", "build"];
                assert(known@.map_values(|k: &str| k@) =~= cross_keys());
                proof {
                    reveal_strlit("");
                    assert(""@ =~= Seq::<char>::empty());
                    assert(strs(unused@) =~= Seq::<Seq<char>>::empty());
                }
                push_unknown_keys(t, &known, "", &mut unused);
                assert(strs(unused@) =~= unknown_keys(t@, cross_keys(), Seq::empty()));
                let ghost u1 = strs(unused@);
                let targets = match read_targets(get(t, "target"), &mut unused) {
                    Ok(x) => x,
                    Err(e) => return Err(e),
                };
                let ghost u2 = strs(unused@);
                let build = match read_build(get(t, "build"), "build", &mut unused) {
                    Ok(x) => x,
                    Err(e) => return Err(e),
                };
                proof {
                    assert(strs(Seq::<String>::empty()) =~= Seq::<Seq<char>>::empty());
                    let (_, tu) = dec_targets(table_get(t@, "target"@))->Ok_0;
                    let (_, bu) = dec_build(table_get(t@, "build"@), "build"@)->Ok_0;
                    assert(strs(unused@) =~= unknown_keys(t@, cross_keys(), Seq::empty()) + tu + bu);
                }
                Ok((CrossToml { targets, build }, sort_paths(&unused)))
            },
            _ => {
                proof {
                    reveal_strlit("");
                    assert(""@ =~= Seq::<char>::empty());
                }
                Err(ConfigError::InvalidType { path: "".to_owned() })
            },
        }
    }

    /// Parses the configuration from TOML text, with the paths of the keys that no
    /// field of the configuration uses.
    pub fn parse(toml_str: &str) -> (r: Result<(CrossToml, Vec<String>), ConfigError>)
        ensures
            match toml_document(toml_str@) {
                None => r is Err && r->Err_0 is Syntax,
                Some(v) => match dec_cross(v) {
                    Ok((c, u)) => r is Ok && r->Ok_0.0@ == c && r->Ok_0.0.wf() && reports(strs(r->Ok_0.1@), u),
                    Err(d) => r is Err && r->Err_0.decoded() == Some(d),
                },
            },
    {
        match read_toml(toml_str) {
            Ok(v) => CrossToml::from_toml(&v),
            Err(message) => Err(ConfigError::Syntax { message }),
        }
    }

    /// Reads the configuration embedded in a manifest document under
    /// `package.metadata.cross`; `None` where the manifest has no such table.
    pub fn from_cargo_toml(v: &TomlValue) -> (r: Result<
        Option<(CrossToml, Vec<String>)>,
        ConfigError,
    >)
        ensures
            match cargo_cross(*v) {
                None => r == Ok::<Option<(CrossToml, Vec<String>)>, ConfigError>(None),
                Some(cv) => match dec_cross(cv) {
                    Ok((c, u)) => r matches Ok(Some(x)) && x.0@ == c && x.0.wf() && reports(strs(x.1@), u),
                    Err(d) => r is Err && r->Err_0.decoded() == Some(d),
                },
            },
    {
        if let TomlValue::Table(t) = v {
            if let Some(TomlValue::Table(p)) = get(t, "package") {
                if let Some(TomlValue::Table(m)) = get(p, "metadata") {
                    if let Some(c) = get(m, "cross") {
                        return match CrossToml::from_toml(c) {
                            Ok(x) => Ok(Some(x)),
                            Err(e) => Err(e),
                        };
                    }
                }
            }
        }
        Ok(None)
    }

    /// Parses the configuration embedded in the text of a manifest under
    /// `package.metadata.cross`; `None` where the manifest has no such table.
    pub fn parse_from_cargo(cargo_toml_str: &str) -> (r: Result<
        Option<(CrossToml, Vec<String>)>,
        ConfigError,
    >)
        ensures
            match toml_document(cargo_toml_str@) {
                None => r is Err && r->Err_0 is Syntax,
                Some(v) => match cargo_cross(v) {
                    None => r == Ok::<Option<(CrossToml, Vec<String>)>, ConfigError>(None),
                    Some(cv) => match dec_cross(cv) {
                        Ok((c, u)) => r matches Ok(Some(x)) && x.0@ == c && x.0.wf() && reports(strs(x.1@), u),
                        Err(d) => r is Err && r->Err_0.decoded() == Some(d),
                    },
                },
            },
    {
        match read_toml(cargo_toml_str) {
            Ok(v) => CrossToml::from_cargo_toml(&v),
            Err(message) => Err(ConfigError::Syntax { message }),
        }
    }
}

/// An empty document gives no targets, an all-default build configuration and no
/// unused keys.
pub proof fn lemma_empty_document(v: TomlValue)
    requires
        v matches TomlValue::Table(t) && t@.len() == 0,
    ensures
        dec_cross(v) == Ok::<(CrossTomlView, Seq<Seq<char>>), DecodeError>(
            (CrossTomlView { targets: Map::empty(), build: default_build() }, Seq::empty()),
        ),
{
    let t = v->Table_0@;
    assert(table_get(t, "target"@) is None);
    assert(table_get(t, "build"@) is None);
    assert(unknown_keys(t, cross_keys(), Seq::empty()) =~= Seq::empty());
    assert(Seq::<Seq<char>>::empty() + Seq::empty() + Seq::empty() =~= Seq::<Seq<char>>::empty());
}

/// A document with one more top-level key outside the schema decodes as before, and
/// its unused keys are the earlier ones with that key added.
pub proof fn lemma_unknown_key_reported(v1: TomlValue, v2: TomlValue, k: String, x: TomlValue)
    requires
        v1 is Table,
        v2 is Table,
        v2->Table_0@ == v1->Table_0@.push((k, x)),
        !cross_keys().contains(k@),
    ensures
        dec_cross(v2) is Ok <==> dec_cross(v1) is Ok,
        dec_cross(v1) is Ok ==> dec_cross(v2)->Ok_0.0 == dec_cross(v1)->Ok_0.0,
        dec_cross(v1) is Ok ==> dec_cross(v2)->Ok_0.1.to_set() == dec_cross(v1)->Ok_0.1.to_set().insert(k@),
        dec_cross(v1) is Err ==> dec_cross(v2) == dec_cross(v1),
{
    let a = v1->Table_0@;
    let b = v2->Table_0@;
    assert(b.drop_last() =~= a);
    assert(cross_keys().contains("target"@)) by {
        assert(cross_keys()[0] == "target"@);
    }
    assert(cross_keys().contains("build"@)) by {
        assert(cross_keys()[1] == "build"@);
    }
    assert(table_get(b, "target"@) == table_get(a, "target"@));
    assert(table_get(b, "build"@) == table_get(a, "build"@));
    assert(unknown_keys(b, cross_keys(), Seq::empty()) == unknown_keys(a, cross_keys(), Seq::empty()).push(k@));
    if dec_cross(v1) is Ok {
        let u = unknown_keys(a, cross_keys(), Seq::empty());
        let tu = dec_targets(table_get(a, "target"@))->Ok_0.1;
        let bu = dec_build(table_get(a, "build"@), "build"@)->Ok_0.1;
        assert(dec_cross(v2)->Ok_0.1.to_set() =~= dec_cross(v1)->Ok_0.1.to_set().insert(k@)) by {
            assert(dec_cross(v1)->Ok_0.1 == u + tu + bu);
            assert(dec_cross(v2)->Ok_0.1 == u.push(k@) + tu + bu);
            assert forall|p: Seq<char>| #[trigger] dec_cross(v2)->Ok_0.1.contains(p) <==> dec_cross(v1)->Ok_0.1.contains(p) || p == k@ by {
                let s1 = u + tu + bu;
                let s2 = u.push(k@) + tu + bu;
                if s2.contains(p) {
                    let i = choose|i: int| 0 <= i < s2.len() && s2[i] == p;
                    if i < u.len() {
                        assert(s1[i] == p);
                    } else if i > u.len() {
                        assert(s1[i - 1] == p);
                    }
                }
                if s1.contains(p) {
                    let i = choose|i: int| 0 <= i < s1.len() && s1[i] == p;
                    if i < u.len() {
                        assert(s2[i] == p);
                    } else {
                        assert(s2[i + 1] == p);
                    }
                }
                if p == k@ {
                    assert(s2[u.len() as int] == p);
                }
            }
        }
    }
}

/// A bare string for a build file decodes to the same value as a table that holds
/// only that string as its `file`.
pub proof fn lemma_dockerfile_shorthand(s: String, t: Vec<(String, TomlValue)>, path: Seq<char>)
    requires
        t@.len() == 1,
        t@[0].0@ == "file"@,
        t@[0].1 == TomlValue::Str(s),
    ensures
        dec_dockerfile(Some(TomlValue::Str(s)), path) == dec_dockerfile(
            Some(TomlValue::Table(t)),
            path,
        ),
        dec_dockerfile(Some(TomlValue::Str(s)), path) == Ok::<
            (Option<DockerfileView>, Seq<Seq<char>>),
            DecodeError,
        >((Some(DockerfileView { file: s@, context: None, build_args: None }), Seq::empty())),
{
    let tt = t@;
    assert(tt.drop_last() =~= Seq::<(String, TomlValue)>::empty());
    assert(tt.last() == tt[0]);
    assert(table_get(tt.drop_last(), "file"@) is None);
    assert(table_get(tt, "file"@) == Some(TomlValue::Str(s)));
    assert(dockerfile_keys()[0] == "file"@);
    assert(dockerfile_keys().contains("file"@));
    reveal_strlit("file");
    reveal_strlit("context");
    reveal_strlit("build-args");
    assert(table_get(tt.drop_last(), "context"@) is None);
    assert(table_get(tt.drop_last(), "build-args"@) is None);
    assert(table_get(tt, "context"@) is None);
    assert(table_get(tt, "build-args"@) is None);
    assert(unknown_keys(tt.drop_last(), dockerfile_keys(), path) =~= Seq::empty());
    assert(unknown_keys(tt, dockerfile_keys(), path) =~= Seq::empty());
}

/// The paths joined with `, ` between them.
pub open spec fn joined(paths: Seq<Seq<char>>) -> Seq<char>
    decreases paths.len(),
{
    if paths.len() == 0 {
        Seq::empty()
    } else if paths.len() == 1 {
        paths[0]
    } else {
        joined(paths.drop_last()) + ", "@ + paths.last()
    }
}

impl CrossToml {
    /// The warning for keys that no field uses, listing their paths in sorted order,
    /// each once; none where every key is used.
    pub fn unused_warning(paths: &Vec<String>) -> (r: Option<String>)
        ensures
            paths@.len() == 0 ==> r is None,
            paths@.len() > 0 ==> (r matches Some(w) && exists|s: Seq<Seq<char>>|
                reports(s, strs(paths@)) && w@
                    == "Warning: found unused key(s) in Cross configuration:\n > "@ + joined(s)),
    {
        if paths.len() == 0 {
            return None;
        }
        let unused = sort_paths(paths);
        proof {
            assert(strs(paths@)[0] == paths@[0]@);
            assert(strs(paths@).contains(paths@[0]@));
            if unused@.len() == 0 {
                assert(strs(unused@) =~= Seq::<Seq<char>>::empty());
                assert(!strs(unused@).to_set().contains(paths@[0]@));
            }
        }
        let ghost sorted = strs(unused@);
        let mut list = unused[0].clone();
        let mut i: usize = 1;
        while i < unused.len()
            invariant
                1 <= i <= unused@.len(),
                sorted == strs(unused@),
                reports(sorted, strs(paths@)),
                list@ == joined(strs(unused@.take(i as int))),
            decreases unused@.len() - i,
        {
            proof {
                assert(strs(unused@.take(i + 1)).drop_last() =~= strs(unused@.take(i as int)));
            }
            list = list.concat(", ").concat(unused[i].as_str());
            i = i + 1;
        }
        proof {
            assert(unused@.take(i as int) =~= unused@);
        }
        let w = String::from_str("Warning: found unused key(s) in Cross configuration:\n > ");
        let w = w.concat(list.as_str());
        assert(reports(sorted, strs(paths@)));
        Some(w)
    }
}

/// An entry whose key is not among `known` changes no lookup of a known key, and adds
/// its own path to the unknown keys.
pub proof fn lemma_table_push_unknown(
    t: Seq<(String, TomlValue)>,
    k: String,
    x: TomlValue,
    known: Seq<Seq<char>>,
    path: Seq<char>,
)
    requires
        !known.contains(k@),
    ensures
        forall|key: Seq<char>| #[trigger] known.contains(key) ==> table_get(t.push((k, x)), key)
            == table_get(t, key),
        unknown_keys(t.push((k, x)), known, path) == unknown_keys(t, known, path).push(
            join_path(path, k@),
        ),
{
    assert(t.push((k, x)).drop_last() =~= t);
}

/// Adding one path after a prefix adds it to the set of all paths.
pub proof fn lemma_push_set(a: Seq<Seq<char>>, p: Seq<char>, b: Seq<Seq<char>>)
    ensures
        (a.push(p) + b).to_set() == (a + b).to_set().insert(p),
{
    let s1 = a + b;
    let s2 = a.push(p) + b;
    assert forall|y: Seq<char>| s2.to_set().contains(y) <==> s1.to_set().insert(p).contains(y) by {
        if s2.contains(y) && y != p {
            let i = choose|i: int| 0 <= i < s2.len() && s2[i] == y;
            if i < a.len() {
                assert(s1[i] == y);
            } else {
                assert(s1[i - 1] == y);
            }
        }
        if s1.contains(y) {
            let i = choose|i: int| 0 <= i < s1.len() && s1[i] == y;
            if i < a.len() {
                assert(s2[i] == y);
            } else {
                assert(s2[i + 1] == y);
            }
        }
        if y == p {
            assert(s2[a.len() as int] == y);
        }
    }
    assert(s2.to_set() =~= s1.to_set().insert(p));
}

pub open spec fn env_of(v: TomlValue, path: Seq<char>) -> Result<(EnvView, Seq<Seq<char>>), DecodeError> {
    dec_env(Some(v), path)
}

pub open spec fn dockerfile_of(v: TomlValue, path: Seq<char>) -> Result<
    (Option<DockerfileView>, Seq<Seq<char>>),
    DecodeError,
> {
    dec_dockerfile(Some(v), path)
}

pub open spec fn build_of(v: TomlValue, path: Seq<char>) -> Result<(BuildView, Seq<Seq<char>>), DecodeError> {
    dec_build(Some(v), path)
}

/// An `env` table with one more key outside its fields decodes as before, and its unused
/// keys gain that key's path.
pub proof fn lemma_env_unknown_key(
    t1: Vec<(String, TomlValue)>,
    t2: Vec<(String, TomlValue)>,
    k: String,
    x: TomlValue,
    path: Seq<char>,
)
    requires
        t2@ == t1@.push((k, x)),
        !env_keys().contains(k@),
    ensures
        env_of(TomlValue::Table(t2), path) is Ok <==> env_of(TomlValue::Table(t1), path) is Ok,
        env_of(TomlValue::Table(t1), path) is Ok ==> env_of(TomlValue::Table(t2), path)->Ok_0.0
            == env_of(TomlValue::Table(t1), path)->Ok_0.0,
        env_of(TomlValue::Table(t1), path) is Ok ==> env_of(TomlValue::Table(t2), path)->Ok_0.1.to_set()
            == env_of(TomlValue::Table(t1), path)->Ok_0.1.to_set().insert(join_path(path, k@)),
        env_of(TomlValue::Table(t1), path) is Err ==> env_of(TomlValue::Table(t2), path)
            == env_of(TomlValue::Table(t1), path),
{
    lemma_table_push_unknown(t1@, k, x, env_keys(), path);
    assert(env_keys()[0] == "volumes"@);
    assert(env_keys().contains("volumes"@));
    assert(table_get(t2@, "volumes"@) == table_get(t1@, "volumes"@));
    assert(env_keys()[1] == "passthrough"@);
    assert(env_keys().contains("passthrough"@));
    assert(table_get(t2@, "passthrough"@) == table_get(t1@, "passthrough"@));
    if env_of(TomlValue::Table(t1), path) is Ok {
        let u1 = env_of(TomlValue::Table(t1), path)->Ok_0.1;
        let u2 = env_of(TomlValue::Table(t2), path)->Ok_0.1;
        let unk = unknown_keys(t1@, env_keys(), path);
        lemma_push_set(unk, join_path(path, k@), u1.skip(unk.len() as int));
        assert(u1 =~= unk + u1.skip(unk.len() as int));
        assert(u2 =~= unk.push(join_path(path, k@)) + u1.skip(unk.len() as int));
    }
}

/// A build-file table with one more key outside its fields decodes as before, and its
/// unused keys gain that key's path.
pub proof fn lemma_dockerfile_unknown_key(
    t1: Vec<(String, TomlValue)>,
    t2: Vec<(String, TomlValue)>,
    k: String,
    x: TomlValue,
    path: Seq<char>,
)
    requires
        t2@ == t1@.push((k, x)),
        !dockerfile_keys().contains(k@),
    ensures
        dockerfile_of(TomlValue::Table(t2), path) is Ok <==> dockerfile_of(TomlValue::Table(t1), path) is Ok,
        dockerfile_of(TomlValue::Table(t1), path) is Ok ==> dockerfile_of(TomlValue::Table(t2), path)->Ok_0.0
            == dockerfile_of(TomlValue::Table(t1), path)->Ok_0.0,
        dockerfile_of(TomlValue::Table(t1), path) is Ok ==> dockerfile_of(TomlValue::Table(t2), path)->Ok_0.1.to_set()
            == dockerfile_of(TomlValue::Table(t1), path)->Ok_0.1.to_set().insert(join_path(path, k@)),
        dockerfile_of(TomlValue::Table(t1), path) is Err ==> dockerfile_of(TomlValue::Table(t2), path)
            == dockerfile_of(TomlValue::Table(t1), path),
{
    lemma_table_push_unknown(t1@, k, x, dockerfile_keys(), path);
    assert(dockerfile_keys()[0] == "file"@);
    assert(dockerfile_keys().contains("file"@));
    assert(table_get(t2@, "file"@) == table_get(t1@, "file"@));
    assert(dockerfile_keys()[1] == "context"@);
    assert(dockerfile_keys().contains("context"@));
    assert(table_get(t2@, "context"@) == table_get(t1@, "context"@));
    assert(dockerfile_keys()[2] == "build-args"@);
    assert(dockerfile_keys().contains("build-args"@));
    assert(table_get(t2@, "build-args"@) == table_get(t1@, "build-args"@));
    if dockerfile_of(TomlValue::Table(t1), path) is Ok {
        let u1 = dockerfile_of(TomlValue::Table(t1), path)->Ok_0.1;
        let u2 = dockerfile_of(TomlValue::Table(t2), path)->Ok_0.1;
        let unk = unknown_keys(t1@, dockerfile_keys(), path);
        lemma_push_set(unk, join_path(path, k@), u1.skip(unk.len() as int));
        assert(u1 =~= unk + u1.skip(unk.len() as int));
        assert(u2 =~= unk.push(join_path(path, k@)) + u1.skip(unk.len() as int));
    }
}

/// A `build` table with one more key outside its fields decodes as before, and its unused
/// keys gain that key's path.
pub proof fn lemma_build_unknown_key(
    t1: Vec<(String, TomlValue)>,
    t2: Vec<(String, TomlValue)>,
    k: String,
    x: TomlValue,
    path: Seq<char>,
)
    requires
        t2@ == t1@.push((k, x)),
        !build_keys().contains(k@),
    ensures
        build_of(TomlValue::Table(t2), path) is Ok <==> build_of(TomlValue::Table(t1), path) is Ok,
        build_of(TomlValue::Table(t1), path) is Ok ==> build_of(TomlValue::Table(t2), path)->Ok_0.0
            == build_of(TomlValue::Table(t1), path)->Ok_0.0,
        build_of(TomlValue::Table(t1), path) is Ok ==> build_of(TomlValue::Table(t2), path)->Ok_0.1.to_set()
            == build_of(TomlValue::Table(t1), path)->Ok_0.1.to_set().insert(join_path(path, k@)),
        build_of(TomlValue::Table(t1), path) is Err ==> build_of(TomlValue::Table(t2), path)
            == build_of(TomlValue::Table(t1), path),
{
    lemma_table_push_unknown(t1@, k, x, build_keys(), path);
    assert(build_keys()[0] == "env"@);
    assert(build_keys().contains("env"@));
    assert(table_get(t2@, "env"@) == table_get(t1@, "env"@));
    assert(build_keys()[1] == "xargo"@);
    assert(build_keys().contains("xargo"@));
    assert(table_get(t2@, "xargo"@) == table_get(t1@, "xargo"@));
    assert(build_keys()[2] == "build-std"@);
    assert(build_keys().contains("build-std"@));
    assert(table_get(t2@, "build-std"@) == table_get(t1@, "build-std"@));
    assert(build_keys()[3] == "default-target"@);
    assert(build_keys().contains("default-target"@));
    assert(table_get(t2@, "default-target"@) == table_get(t1@, "default-target"@));
    assert(build_keys()[4] == "pre-build"@);
    assert(build_keys().contains("pre-build"@));
    assert(table_get(t2@, "pre-build"@) == table_get(t1@, "pre-build"@));
    assert(build_keys()[5] == "dockerfile"@);
    assert(build_keys().contains("dockerfile"@));
    assert(table_get(t2@, "dockerfile"@) == table_get(t1@, "dockerfile"@));
    if build_of(TomlValue::Table(t1), path) is Ok {
        let u1 = build_of(TomlValue::Table(t1), path)->Ok_0.1;
        let u2 = build_of(TomlValue::Table(t2), path)->Ok_0.1;
        let unk = unknown_keys(t1@, build_keys(), path);
        lemma_push_set(unk, join_path(path, k@), u1.skip(unk.len() as int));
        assert(u1 =~= unk + u1.skip(unk.len() as int));
        assert(u2 =~= unk.push(join_path(path, k@)) + u1.skip(unk.len() as int));
    }
}

/// A target table with one more key outside its fields decodes as before, and its unused
/// keys gain that key's path.
pub proof fn lemma_target_unknown_key(
    t1: Vec<(String, TomlValue)>,
    t2: Vec<(String, TomlValue)>,
    k: String,
    x: TomlValue,
    path: Seq<char>,
)
    requires
        t2@ == t1@.push((k, x)),
        !target_keys().contains(k@),
    ensures
        dec_target_cfg(TomlValue::Table(t2), path) is Ok <==> dec_target_cfg(TomlValue::Table(t1), path) is Ok,
        dec_target_cfg(TomlValue::Table(t1), path) is Ok ==> dec_target_cfg(TomlValue::Table(t2), path)->Ok_0.0
            == dec_target_cfg(TomlValue::Table(t1), path)->Ok_0.0,
        dec_target_cfg(TomlValue::Table(t1), path) is Ok ==> dec_target_cfg(TomlValue::Table(t2), path)->Ok_0.1.to_set()
            == dec_target_cfg(TomlValue::Table(t1), path)->Ok_0.1.to_set().insert(join_path(path, k@)),
        dec_target_cfg(TomlValue::Table(t1), path) is Err ==> dec_target_cfg(TomlValue::Table(t2), path)
            == dec_target_cfg(TomlValue::Table(t1), path),
{
    lemma_table_push_unknown(t1@, k, x, target_keys(), path);
    assert(target_keys()[0] == "xargo"@);
    assert(target_keys().contains("xargo"@));
    assert(table_get(t2@, "xargo"@) == table_get(t1@, "xargo"@));
    assert(target_keys()[1] == "build-std"@);
    assert(target_keys().contains("build-std"@));
    assert(table_get(t2@, "build-std"@) == table_get(t1@, "build-std"@));
    assert(target_keys()[2] == "image"@);
    assert(target_keys().contains("image"@));
    assert(table_get(t2@, "image"@) == table_get(t1@, "image"@));
    assert(target_keys()[3] == "dockerfile"@);
    assert(target_keys().contains("dockerfile"@));
    assert(table_get(t2@, "dockerfile"@) == table_get(t1@, "dockerfile"@));
    assert(target_keys()[4] == "pre-build"@);
    assert(target_keys().contains("pre-build"@));
    assert(table_get(t2@, "pre-build"@) == table_get(t1@, "pre-build"@));
    assert(target_keys()[5] == "runner"@);
    assert(target_keys().contains("runner"@));
    assert(table_get(t2@, "runner"@) == table_get(t1@, "runner"@));
    assert(target_keys()[6] == "env"@);
    assert(target_keys().contains("env"@));
    assert(table_get(t2@, "env"@) == table_get(t1@, "env"@));
    if dec_target_cfg(TomlValue::Table(t1), path) is Ok {
        let u1 = dec_target_cfg(TomlValue::Table(t1), path)->Ok_0.1;
        let u2 = dec_target_cfg(TomlValue::Table(t2), path)->Ok_0.1;
        let unk = unknown_keys(t1@, target_keys(), path);
        lemma_push_set(unk, join_path(path, k@), u1.skip(unk.len() as int));
        assert(u1 =~= unk + u1.skip(unk.len() as int));
        assert(u2 =~= unk.push(join_path(path, k@)) + u1.skip(unk.len() as int));
    }
}

} // verus!
