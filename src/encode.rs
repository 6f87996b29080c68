use vstd::prelude::*;

use crate::cross_toml::{
    opt_dockerfile, opt_str, opt_strs, BuildView, DockerfileView, EnvView, TargetConfigView, pairs_map, CrossBuildConfig, CrossEnvConfig, CrossTargetConfig, CrossTargetDockerfileConfig,
    CrossToml, CrossTomlView,
};
use crate::decode::{
    build_keys, cross_keys, dec_args, dec_build, dec_cross, dec_dockerfile, dec_env, dec_str,
    dec_bool, dec_strs, dec_target_cfg, dec_target_entries, dockerfile_keys, env_keys, str_entries_map,
    str_of, target_keys,
};
use crate::target::Target;
use crate::toml_value::{join_path, strs, table_get, unknown_keys, DecodeError, TomlValue};

verus! {

/// Appends an entry to a table.
fn push_entry(t: &mut Vec<(String, TomlValue)>, key: &str, v: TomlValue)
    ensures
        final(t)@.len() == old(t)@.len() + 1,
        final(t)@.last().0@ == key@,
        final(t)@.last().1 == v,
        final(t)@.drop_last() == old(t)@,
        forall|k: Seq<char>| #[trigger]
            table_get(final(t)@, k) == if table_get(old(t)@, k) is Some {
                table_get(old(t)@, k)
            } else if k == key@ {
                Some(v)
            } else {
                None
            },
        forall|known: Seq<Seq<char>>, p: Seq<char>|
            known.contains(key@) ==> #[trigger] unknown_keys(final(t)@, known, p) == unknown_keys(
                old(t)@,
                known,
                p,
            ),
{
    let ghost before = t@;
    t.push((key.to_owned(), v));
    assert(t@.drop_last() =~= before);
}

proof fn lemma_empty_table(known: Seq<Seq<char>>, p: Seq<char>, k: Seq<char>)
    ensures
        table_get(Seq::<(String, TomlValue)>::empty(), k) is None,
        unknown_keys(Seq::<(String, TomlValue)>::empty(), known, p) == Seq::<Seq<char>>::empty(),
{
}

fn enc_strs(v: &Vec<String>) -> (r: TomlValue)
    ensures
        forall|p: Seq<char>| #[trigger] dec_strs(Some(r), p) == Ok::<Option<Seq<Seq<char>>>, crate::toml_value::DecodeError>(Some(strs(v@))),
{
    let mut a: Vec<TomlValue> = Vec::new();
    let mut i: usize = 0;
    while i < v.len()
        invariant
            i <= v@.len(),
            a@.len() == i,
            forall|j: int| 0 <= j < i ==> a@[j] is Str && str_of(a@[j]) == v@[j]@,
        decreases v@.len() - i,
    {
        a.push(TomlValue::Str(v[i].clone()));
        i = i + 1;
    }
    assert(a@.map_values(|e: TomlValue| str_of(e)) =~= strs(v@));
    TomlValue::Array(a)
}

fn enc_env(e: &CrossEnvConfig) -> (r: TomlValue)
    ensures
        forall|p: Seq<char>| #[trigger] dec_env(Some(r), p) == Ok::<(crate::cross_toml::EnvView, Seq<Seq<char>>), crate::toml_value::DecodeError>((e@, Seq::empty())),
{
    proof {
        reveal_strlit("volumes");
        reveal_strlit("passthrough");
        assert(env_keys()[0] == "volumes"@);
        assert(env_keys()[1] == "passthrough"@);
    }
    let mut t: Vec<(String, TomlValue)> = Vec::new();
    proof {
        lemma_empty_table(env_keys(), Seq::empty(), "volumes"@);
        lemma_empty_table(env_keys(), Seq::empty(), "passthrough"@);
    }
    if let Some(v) = &e.volumes {
        push_entry(&mut t, "volumes", enc_strs(v));
    }
    if let Some(v) = &e.passthrough {
        push_entry(&mut t, "passthrough", enc_strs(v));
    }
    assert forall|p: Seq<char>| #[trigger] unknown_keys(t@, env_keys(), p) == Seq::<Seq<char>>::empty() by {
        lemma_empty_table(env_keys(), p, "volumes"@);
    }
    TomlValue::Table(t)
}

fn enc_args(v: &Vec<(String, String)>) -> (r: TomlValue)
    ensures
        forall|p: Seq<char>| #[trigger] dec_args(Some(r), p) == Ok::<Option<Map<Seq<char>, Seq<char>>>, DecodeError>(Some(pairs_map(v@))),
{
    let mut a: Vec<(String, TomlValue)> = Vec::new();
    let mut i: usize = 0;
    proof {
        assert(v@.take(0) =~= Seq::<(String, String)>::empty());
    }
    while i < v.len()
        invariant
            i <= v@.len(),
            a@.len() == i,
            forall|j: int| 0 <= j < i ==> a@[j].1 is Str,
            str_entries_map(a@) == pairs_map(v@.take(i as int)),
        decreases v@.len() - i,
    {
        let ghost before = a@;
        a.push((v[i].0.clone(), TomlValue::Str(v[i].1.clone())));
        proof {
            assert(a@.drop_last() =~= before);
            assert(v@.take(i + 1).drop_last() =~= v@.take(i as int));
        }
        i = i + 1;
    }
    assert(v@.take(i as int) =~= v@);
    TomlValue::Table(a)
}

fn enc_dockerfile(d: &CrossTargetDockerfileConfig) -> (r: TomlValue)
    ensures
        forall|p: Seq<char>| #[trigger] dec_dockerfile(Some(r), p) == Ok::<(Option<DockerfileView>, Seq<Seq<char>>), DecodeError>((Some(d@), Seq::empty())),
{
    proof {
        reveal_strlit("file");
        reveal_strlit("context");
        reveal_strlit("build-args");
        assert(dockerfile_keys()[0] == "file"@);
        assert(dockerfile_keys()[1] == "context"@);
        assert(dockerfile_keys()[2] == "build-args"@);
    }
    let mut t: Vec<(String, TomlValue)> = Vec::new();
    proof {
        lemma_empty_table(dockerfile_keys(), Seq::empty(), "file"@);
        lemma_empty_table(dockerfile_keys(), Seq::empty(), "context"@);
        lemma_empty_table(dockerfile_keys(), Seq::empty(), "build-args"@);
    }
    push_entry(&mut t, "file", TomlValue::Str(d.file.clone()));
    if let Some(c) = &d.context {
        push_entry(&mut t, "context", TomlValue::Str(c.clone()));
    }
    if let Some(a) = &d.build_args {
        push_entry(&mut t, "build-args", enc_args(a));
    }
    assert forall|p: Seq<char>| #[trigger] unknown_keys(t@, dockerfile_keys(), p) == Seq::<Seq<char>>::empty() by {
        lemma_empty_table(dockerfile_keys(), p, "file"@);
    }
    TomlValue::Table(t)
}

fn enc_build(b: &CrossBuildConfig) -> (r: TomlValue)
    ensures
        forall|p: Seq<char>| #[trigger] dec_build(Some(r), p) == Ok::<(BuildView, Seq<Seq<char>>), DecodeError>((b@, Seq::empty())),
{
    proof {
        reveal_strlit("env");
        reveal_strlit("xargo");
        reveal_strlit("build-std");
        reveal_strlit("default-target");
        reveal_strlit("pre-build");
        reveal_strlit("dockerfile");
        assert(build_keys()[0] == "env"@);
        assert(build_keys()[1] == "xargo"@);
        assert(build_keys()[2] == "build-std"@);
        assert(build_keys()[3] == "default-target"@);
        assert(build_keys()[4] == "pre-build"@);
        assert(build_keys()[5] == "dockerfile"@);
        assert("env"@.len() != "xargo"@.len());
        assert("env"@.len() != "build-std"@.len());
        assert("env"@.len() != "default-target"@.len());
        assert("env"@.len() != "pre-build"@.len());
        assert("env"@.len() != "dockerfile"@.len());
        assert("xargo"@.len() != "build-std"@.len());
        assert("xargo"@.len() != "default-target"@.len());
        assert("xargo"@.len() != "pre-build"@.len());
        assert("xargo"@.len() != "dockerfile"@.len());
        assert("build-std"@.len() != "default-target"@.len());
        assert("build-std"@[0] != "pre-build"@[0]);
        assert("build-std"@.len() != "dockerfile"@.len());
        assert("default-target"@.len() != "pre-build"@.len());
        assert("default-target"@.len() != "dockerfile"@.len());
        assert("pre-build"@.len() != "dockerfile"@.len());
    }
    let mut t: Vec<(String, TomlValue)> = Vec::new();
    proof {
        lemma_empty_table(build_keys(), Seq::empty(), "env"@);
        lemma_empty_table(build_keys(), Seq::empty(), "xargo"@);
        lemma_empty_table(build_keys(), Seq::empty(), "build-std"@);
        lemma_empty_table(build_keys(), Seq::empty(), "default-target"@);
        lemma_empty_table(build_keys(), Seq::empty(), "pre-build"@);
        lemma_empty_table(build_keys(), Seq::empty(), "dockerfile"@);
    }
    push_entry(&mut t, "env", enc_env(&b.env));
    if let Some(x) = b.xargo {
        push_entry(&mut t, "xargo", TomlValue::Bool(x));
    }
    if let Some(x) = b.build_std {
        push_entry(&mut t, "build-std", TomlValue::Bool(x));
    }
    if let Some(x) = &b.default_target {
        push_entry(&mut t, "default-target", TomlValue::Str(x.clone()));
    }
    if let Some(x) = &b.pre_build {
        push_entry(&mut t, "pre-build", enc_strs(x));
    }
    if let Some(x) = &b.dockerfile {
        push_entry(&mut t, "dockerfile", enc_dockerfile(x));
    }
    assert forall|p: Seq<char>| #[trigger] dec_build(Some(TomlValue::Table(t)), p) == Ok::<(BuildView, Seq<Seq<char>>), DecodeError>((b@, Seq::empty())) by {
        lemma_empty_table(build_keys(), p, "env"@);
        let tt = t@;
        assert(dec_env(table_get(tt, "env"@), join_path(p, "env"@)) == Ok::<(EnvView, Seq<Seq<char>>), DecodeError>((b.env@, Seq::empty())));
        assert(dec_bool(table_get(tt, "xargo"@), join_path(p, "xargo"@)) == Ok::<Option<bool>, DecodeError>(b.xargo));
        assert(dec_bool(table_get(tt, "build-std"@), join_path(p, "build-std"@)) == Ok::<Option<bool>, DecodeError>(b.build_std));
        assert(dec_str(table_get(tt, "default-target"@), join_path(p, "default-target"@)) == Ok::<Option<Seq<char>>, DecodeError>(opt_str(b.default_target)));
        assert(dec_strs(table_get(tt, "pre-build"@), join_path(p, "pre-build"@)) == Ok::<Option<Seq<Seq<char>>>, DecodeError>(opt_strs(b.pre_build)));
        assert(dec_dockerfile(table_get(tt, "dockerfile"@), join_path(p, "dockerfile"@)) == Ok::<(Option<DockerfileView>, Seq<Seq<char>>), DecodeError>((opt_dockerfile(b.dockerfile), Seq::empty())));
        assert(unknown_keys(t@, build_keys(), p) == Seq::<Seq<char>>::empty());
        assert(Seq::<Seq<char>>::empty() + Seq::empty() + Seq::empty() =~= Seq::<Seq<char>>::empty());
    }
    TomlValue::Table(t)
}

fn enc_target(c: &CrossTargetConfig) -> (r: TomlValue)
    ensures
        forall|p: Seq<char>| #[trigger] dec_target_cfg(r, p) == Ok::<(TargetConfigView, Seq<Seq<char>>), DecodeError>((c@, Seq::empty())),
{
    proof {
        reveal_strlit("env");
        reveal_strlit("xargo");
        reveal_strlit("build-std");
        reveal_strlit("image");
        reveal_strlit("pre-build");
        reveal_strlit("dockerfile");
        reveal_strlit("runner");
        assert(target_keys()[0] == "xargo"@);
        assert(target_keys()[1] == "build-std"@);
        assert(target_keys()[2] == "image"@);
        assert(target_keys()[3] == "dockerfile"@);
        assert(target_keys()[4] == "pre-build"@);
        assert(target_keys()[5] == "runner"@);
        assert(target_keys()[6] == "env"@);
        assert("xargo"@.len() != "build-std"@.len());
        assert("xargo"@[0] != "image"@[0]);
        assert("xargo"@.len() != "dockerfile"@.len());
        assert("xargo"@.len() != "pre-build"@.len());
        assert("xargo"@.len() != "runner"@.len());
        assert("xargo"@.len() != "env"@.len());
        assert("build-std"@.len() != "image"@.len());
        assert("build-std"@.len() != "dockerfile"@.len());
        assert("build-std"@[0] != "pre-build"@[0]);
        assert("build-std"@.len() != "runner"@.len());
        assert("build-std"@.len() != "env"@.len());
        assert("image"@.len() != "dockerfile"@.len());
        assert("image"@.len() != "pre-build"@.len());
        assert("image"@.len() != "runner"@.len());
        assert("image"@.len() != "env"@.len());
        assert("dockerfile"@.len() != "pre-build"@.len());
        assert("dockerfile"@.len() != "runner"@.len());
        assert("dockerfile"@.len() != "env"@.len());
        assert("pre-build"@.len() != "runner"@.len());
        assert("pre-build"@.len() != "env"@.len());
        assert("runner"@.len() != "env"@.len());
    }
    let mut t: Vec<(String, TomlValue)> = Vec::new();
    proof {
        lemma_empty_table(target_keys(), Seq::empty(), "env"@);
        lemma_empty_table(target_keys(), Seq::empty(), "xargo"@);
        lemma_empty_table(target_keys(), Seq::empty(), "build-std"@);
        lemma_empty_table(target_keys(), Seq::empty(), "image"@);
        lemma_empty_table(target_keys(), Seq::empty(), "pre-build"@);
        lemma_empty_table(target_keys(), Seq::empty(), "dockerfile"@);
        lemma_empty_table(target_keys(), Seq::empty(), "runner"@);
    }
    if let Some(x) = c.xargo {
        push_entry(&mut t, "xargo", TomlValue::Bool(x));
    }
    if let Some(x) = c.build_std {
        push_entry(&mut t, "build-std", TomlValue::Bool(x));
    }
    if let Some(x) = &c.image {
        push_entry(&mut t, "image", TomlValue::Str(x.clone()));
    }
    if let Some(x) = &c.dockerfile {
        push_entry(&mut t, "dockerfile", enc_dockerfile(x));
    }
    if let Some(x) = &c.pre_build {
        push_entry(&mut t, "pre-build", enc_strs(x));
    }
    if let Some(x) = &c.runner {
        push_entry(&mut t, "runner", TomlValue::Str(x.clone()));
    }
    push_entry(&mut t, "env", enc_env(&c.env));
    assert forall|p: Seq<char>| #[trigger] dec_target_cfg(TomlValue::Table(t), p) == Ok::<(TargetConfigView, Seq<Seq<char>>), DecodeError>((c@, Seq::empty())) by {
        lemma_empty_table(target_keys(), p, "env"@);
        let tt = t@;
        assert(dec_env(table_get(tt, "env"@), join_path(p, "env"@)) == Ok::<(EnvView, Seq<Seq<char>>), DecodeError>((c.env@, Seq::empty())));
        assert(dec_bool(table_get(tt, "xargo"@), join_path(p, "xargo"@)) == Ok::<Option<bool>, DecodeError>(c.xargo));
        assert(dec_bool(table_get(tt, "build-std"@), join_path(p, "build-std"@)) == Ok::<Option<bool>, DecodeError>(c.build_std));
        assert(dec_str(table_get(tt, "image"@), join_path(p, "image"@)) == Ok::<Option<Seq<char>>, DecodeError>(opt_str(c.image)));
        assert(dec_str(table_get(tt, "runner"@), join_path(p, "runner"@)) == Ok::<Option<Seq<char>>, DecodeError>(opt_str(c.runner)));
        assert(dec_strs(table_get(tt, "pre-build"@), join_path(p, "pre-build"@)) == Ok::<Option<Seq<Seq<char>>>, DecodeError>(opt_strs(c.pre_build)));
        assert(dec_dockerfile(table_get(tt, "dockerfile"@), join_path(p, "dockerfile"@)) == Ok::<(Option<DockerfileView>, Seq<Seq<char>>), DecodeError>((opt_dockerfile(c.dockerfile), Seq::empty())));
        assert(unknown_keys(t@, target_keys(), p) == Seq::<Seq<char>>::empty());
        assert(Seq::<Seq<char>>::empty() + Seq::empty() + Seq::empty() =~= Seq::<Seq<char>>::empty());
    }
    TomlValue::Table(t)
}

impl CrossToml {
    /// The configuration as a TOML document: every field that holds a value, under
    /// its key. Reading the document back gives the same configuration and no
    /// unused keys.
    pub fn to_toml(&self) -> (r: TomlValue)
        ensures
            dec_cross(r) == Ok::<(CrossTomlView, Seq<Seq<char>>), DecodeError>((self@, Seq::empty())),
    {
        let mut entries: Vec<(String, TomlValue)> = Vec::new();
        let mut i: usize = 0;
        proof {
            assert(self.targets@.take(0) =~= Seq::<(Target, CrossTargetConfig)>::empty());
            assert(entries@ =~= Seq::<(String, TomlValue)>::empty());
        }
        while i < self.targets.len()
            invariant
                i <= self.targets@.len(),
                entries@.len() == i,
                dec_target_entries(entries@) == Ok::<(Map<Seq<char>, TargetConfigView>, Seq<Seq<char>>), DecodeError>(
                    (pairs_map(self.targets@.take(i as int)), Seq::empty()),
                ),
            decreases self.targets@.len() - i,
        {
            let ghost before = entries@;
            let value = enc_target(&self.targets[i].1);
            entries.push((self.targets[i].0.triple().to_owned(), value));
            proof {
                assert(entries@.drop_last() =~= before);
                assert(self.targets@.take(i + 1).drop_last() =~= self.targets@.take(i as int));
                assert(Seq::<Seq<char>>::empty() + Seq::empty() =~= Seq::<Seq<char>>::empty());
            }
            i = i + 1;
        }
        assert(self.targets@.take(i as int) =~= self.targets@);
        let mut t: Vec<(String, TomlValue)> = Vec::new();
        proof {
            reveal_strlit("target");
            reveal_strlit("build");
            assert(cross_keys()[0] == "target"@);
            assert(cross_keys()[1] == "build"@);
            lemma_empty_table(cross_keys(), Seq::empty(), "target"@);
            lemma_empty_table(cross_keys(), Seq::empty(), "build"@);
        }
        push_entry(&mut t, "target", TomlValue::Table(entries));
        push_entry(&mut t, "build", enc_build(&self.build));
        proof {
            assert(unknown_keys(t@, cross_keys(), Seq::empty()) == Seq::<Seq<char>>::empty());
            assert(Seq::<Seq<char>>::empty() + Seq::empty() + Seq::empty() =~= Seq::<Seq<char>>::empty());
        }
        TomlValue::Table(t)
    }
}

} // verus!
