use vstd::prelude::*;

use crate::target::{str_eq, Target, TargetList};
use crate::toml_value::{strs, ConfigError};

verus! {

/// Environment configuration
#[derive(Debug, Default)]
pub struct CrossEnvConfig {
    pub volumes: Option<Vec<String>>,
    pub passthrough: Option<Vec<String>>,
}

/// Build configuration
#[derive(Debug, Default)]
pub struct CrossBuildConfig {
    pub env: CrossEnvConfig,
    pub xargo: Option<bool>,
    pub build_std: Option<bool>,
    pub default_target: Option<String>,
    pub pre_build: Option<Vec<String>>,
    pub dockerfile: Option<CrossTargetDockerfileConfig>,
}

/// Target configuration
#[derive(Debug)]
pub struct CrossTargetConfig {
    pub xargo: Option<bool>,
    pub build_std: Option<bool>,
    pub image: Option<String>,
    pub dockerfile: Option<CrossTargetDockerfileConfig>,
    pub pre_build: Option<Vec<String>>,
    pub runner: Option<String>,
    pub env: CrossEnvConfig,
}

/// Dockerfile configuration; `build_args` holds each key once.
#[derive(Debug)]
pub struct CrossTargetDockerfileConfig {
    pub file: String,
    pub context: Option<String>,
    pub build_args: Option<Vec<(String, String)>>,
}

/// Cross configuration; `targets` holds each triple once.
#[derive(Debug, Default)]
pub struct CrossToml {
    pub targets: Vec<(Target, CrossTargetConfig)>,
    pub build: CrossBuildConfig,
}

pub struct EnvView {
    pub volumes: Option<Seq<Seq<char>>>,
    pub passthrough: Option<Seq<Seq<char>>>,
}

pub struct DockerfileView {
    pub file: Seq<char>,
    pub context: Option<Seq<char>>,
    pub build_args: Option<Map<Seq<char>, Seq<char>>>,
}

pub struct BuildView {
    pub env: EnvView,
    pub xargo: Option<bool>,
    pub build_std: Option<bool>,
    pub default_target: Option<Seq<char>>,
    pub pre_build: Option<Seq<Seq<char>>>,
    pub dockerfile: Option<DockerfileView>,
}

pub struct TargetConfigView {
    pub xargo: Option<bool>,
    pub build_std: Option<bool>,
    pub image: Option<Seq<char>>,
    pub dockerfile: Option<DockerfileView>,
    pub pre_build: Option<Seq<Seq<char>>>,
    pub runner: Option<Seq<char>>,
    pub env: EnvView,
}

pub struct CrossTomlView {
    pub targets: Map<Seq<char>, TargetConfigView>,
    pub build: BuildView,
}

pub open spec fn opt_str(o: Option<String>) -> Option<Seq<char>> {
    match o {
        Some(s) => Some(s@),
        None => None,
    }
}

pub open spec fn opt_strs(o: Option<Vec<String>>) -> Option<Seq<Seq<char>>> {
    match o {
        Some(v) => Some(strs(v@)),
        None => None,
    }
}

impl View for CrossEnvConfig {
    type V = EnvView;

    open spec fn view(&self) -> EnvView {
        EnvView { volumes: opt_strs(self.volumes), passthrough: opt_strs(self.passthrough) }
    }
}

impl View for CrossTargetDockerfileConfig {
    type V = DockerfileView;

    open spec fn view(&self) -> DockerfileView {
        DockerfileView {
            file: self.file@,
            context: opt_str(self.context),
            build_args: match self.build_args {
                Some(v) => Some(pairs_map(v@)),
                None => None,
            },
        }
    }
}

impl CrossTargetDockerfileConfig {
    /// The configuration of a build file given by its path alone.
    pub fn from_str(s: &str) -> (r: CrossTargetDockerfileConfig)
        ensures
            r@ == (DockerfileView { file: s@, context: None, build_args: None }),
            r.build_args is None,
    {
        CrossTargetDockerfileConfig { file: s.to_owned(), context: None, build_args: None }
    }
}

pub open spec fn opt_dockerfile(o: Option<CrossTargetDockerfileConfig>) -> Option<DockerfileView> {
    match o {
        Some(d) => Some(d@),
        None => None,
    }
}

impl View for CrossBuildConfig {
    type V = BuildView;

    open spec fn view(&self) -> BuildView {
        BuildView {
            env: self.env@,
            xargo: self.xargo,
            build_std: self.build_std,
            default_target: opt_str(self.default_target),
            pre_build: opt_strs(self.pre_build),
            dockerfile: opt_dockerfile(self.dockerfile),
        }
    }
}

impl View for CrossTargetConfig {
    type V = TargetConfigView;

    open spec fn view(&self) -> TargetConfigView {
        TargetConfigView {
            xargo: self.xargo,
            build_std: self.build_std,
            image: opt_str(self.image),
            dockerfile: opt_dockerfile(self.dockerfile),
            pre_build: opt_strs(self.pre_build),
            runner: opt_str(self.runner),
            env: self.env@,
        }
    }
}

impl View for CrossToml {
    type V = CrossTomlView;

    open spec fn view(&self) -> CrossTomlView {
        CrossTomlView { targets: pairs_map(self.targets@), build: self.build@ }
    }
}

/// Each map of entries holds every key once.
pub open spec fn dockerfile_wf(o: Option<CrossTargetDockerfileConfig>) -> bool {
    match o {
        Some(d) => match d.build_args {
            Some(v) => keys_unique(v@),
            None => true,
        },
        None => true,
    }
}

impl CrossToml {
    /// Every map of entries in the configuration holds each key once.
    pub open spec fn wf(&self) -> bool {
        &&& keys_unique(self.targets@)
        &&& dockerfile_wf(self.build.dockerfile)
        &&& forall|i: int|
            0 <= i < self.targets@.len() ==> dockerfile_wf(#[trigger] self.targets@[i].1.dockerfile)
    }
}

/// The map that a sequence of entries stands for: a later entry wins over an earlier one.
pub open spec fn pairs_map<K: View, V: View>(s: Seq<(K, V)>) -> Map<K::V, V::V>
    decreases s.len(),
{
    if s.len() == 0 {
        Map::empty()
    } else {
        pairs_map(s.drop_last()).insert(s.last().0@, s.last().1@)
    }
}

/// No key stands in two entries.
pub open spec fn keys_unique<K: View, V>(s: Seq<(K, V)>) -> bool {
    forall|i: int, j: int| 0 <= i < j < s.len() ==> s[i].0@ != s[j].0@
}

pub proof fn lemma_pairs_map_keys<K: View, V: View>(s: Seq<(K, V)>, k: K::V)
    ensures
        pairs_map(s).contains_key(k) <==> exists|i: int| 0 <= i < s.len() && s[i].0@ == k,
    decreases s.len(),
{
    if s.len() > 0 {
        lemma_pairs_map_keys(s.drop_last(), k);
        if pairs_map(s).contains_key(k) && s.last().0@ != k {
            let i = choose|i: int| 0 <= i < s.drop_last().len() && s.drop_last()[i].0@ == k;
            assert(s[i].0@ == k);
        }
        if exists|i: int| 0 <= i < s.len() && s[i].0@ == k {
            let i = choose|i: int| 0 <= i < s.len() && s[i].0@ == k;
            if i < s.len() - 1 {
                assert(s.drop_last()[i].0@ == k);
            }
        }
    }
}

pub proof fn lemma_pairs_map_concat<K: View, V: View>(a: Seq<(K, V)>, b: Seq<(K, V)>)
    ensures
        pairs_map(a + b) == pairs_map(a).union_prefer_right(pairs_map(b)),
    decreases b.len(),
{
    if b.len() == 0 {
        assert(a + b =~= a);
        assert(pairs_map(a).union_prefer_right(pairs_map(b)) =~= pairs_map(a));
    } else {
        assert((a + b).drop_last() =~= a + b.drop_last());
        lemma_pairs_map_concat(a, b.drop_last());
        assert(pairs_map(a + b) =~= pairs_map(a).union_prefer_right(pairs_map(b)));
    }
}

/// A key of a map of entries, read as a string.
pub trait EntryKey: View<V = Seq<char>> + Sized {
    fn key_str(&self) -> (r: &str)
        ensures
            r@ == self@,
    ;
}

impl EntryKey for String {
    fn key_str(&self) -> (r: &str) {
        self.as_str()
    }
}

impl EntryKey for Target {
    fn key_str(&self) -> (r: &str) {
        self.triple()
    }
}

/// The value that the last entry with key `k` holds.
fn entry_get<'a, K: EntryKey, V: View>(a: &'a Vec<(K, V)>, k: &str) -> (r: Option<&'a V>)
    ensures
        match r {
            Some(v) => pairs_map(a@).contains_key(k@) && pairs_map(a@)[k@] == v@ && exists|i: int|
                0 <= i < a@.len() && a@[i].1 == *v,
            None => !pairs_map(a@).contains_key(k@),
        },
{
    let ghost s = a@;
    let mut i: usize = a.len();
    while i > 0
        invariant
            i <= s.len(),
            s == a@,
            forall|j: int| i <= j < s.len() ==> s[j].0@ != k@,
        decreases i,
    {
        if str_eq(a[i - 1].0.key_str(), k) {
            proof {
                assert(s =~= s.take(i as int) + s.skip(i as int));
                lemma_pairs_map_concat(s.take(i as int), s.skip(i as int));
                lemma_pairs_map_keys(s.skip(i as int), k@);
                assert(s.take(i as int).drop_last() =~= s.take(i - 1));
                assert(a@[i - 1].1 == a[i - 1].1);
            }
            return Some(&a[i - 1].1);
        }
        i = i - 1;
    }
    proof {
        lemma_pairs_map_keys(s, k@);
    }
    None
}

/// The entries of `a` whose key `b` does not hold, followed by the entries of `b`.
pub(crate) fn merge_entries<K: EntryKey, V: View>(a: Vec<(K, V)>, b: Vec<(K, V)>) -> (r: Vec<(K, V)>)
    requires
        keys_unique(a@),
        keys_unique(b@),
    ensures
        keys_unique(r@),
        pairs_map(r@) == pairs_map(a@).union_prefer_right(pairs_map(b@)),
        forall|i: int| 0 <= i < r@.len() ==> a@.contains(#[trigger] r@[i]) || b@.contains(r@[i]),
{
    let ghost bk = pairs_map(b@).dom();
    let mut out: Vec<(K, V)> = Vec::new();
    let mut rest = a;
    let ghost a0 = rest@;
    let ghost mut taken: Seq<(K, V)> = Seq::empty();
    while rest.len() > 0
        invariant
            a0 == taken + rest@,
            keys_unique(a0),
            bk == pairs_map(b@).dom(),
            keys_unique(out@),
            forall|i: int| 0 <= i < out@.len() ==> !bk.contains(#[trigger] out@[i].0@),
            forall|i: int, j: int|
                0 <= i < out@.len() && 0 <= j < rest@.len() ==> out@[i].0@ != rest@[j].0@,
            pairs_map(out@) == pairs_map(taken).remove_keys(bk),
            forall|i: int| 0 <= i < out@.len() ==> a0.contains(#[trigger] out@[i]),
        decreases rest@.len(),
    {
        let ghost old_rest = rest@;
        let ghost old_out = out@;
        let e = rest.remove(0);
        let ghost ek = e.0@;
        let mut in_b = false;
        let mut j: usize = 0;
        while j < b.len()
            invariant
                j <= b@.len(),
                ek == e.0@,
                in_b == exists|x: int| 0 <= x < j && b@[x].0@ == ek,
            decreases b@.len() - j,
        {
            if str_eq(b[j].0.key_str(), e.0.key_str()) {
                in_b = true;
                assert(b@[j as int].0@ == ek);
            } else {
                assert(b@[j as int].0@ != ek);
            }
            j = j + 1;
        }
        proof {
            lemma_pairs_map_keys(b@, ek);
            assert(old_rest[0] == e);
            assert(a0 =~= taken.push(e) + rest@);
            assert(taken.push(e).drop_last() =~= taken);
            taken = taken.push(e);
            assert forall|j: int| 0 <= j < rest@.len() implies ek != rest@[j].0@ by {
                assert(a0[taken.len() - 1] == e);
                assert(a0[taken.len() + j] == rest@[j]);
            }
        }
        if !in_b {
            out.push(e);
            proof {
                assert(a0[taken.len() - 1] == e);
                assert forall|i: int| 0 <= i < out@.len() implies a0.contains(#[trigger] out@[i]) by {
                    if i < out@.len() - 1 {
                        assert(out@[i] == old_out[i]);
                    } else {
                        assert(a0[taken.len() - 1] == out@[i]);
                    }
                }
                assert(out@.drop_last() =~= old_out);
                assert(out@.last() == e);
                assert(pairs_map(out@) =~= pairs_map(taken).remove_keys(bk));
                assert forall|i: int, j: int| 0 <= i < j < out@.len() implies out@[i].0@
                    != out@[j].0@ by {
                    if j == out@.len() - 1 {
                        assert(out@[i] == old_out[i]);
                        assert(old_rest[0] == e);
                    } else {
                        assert(out@[i] == old_out[i]);
                        assert(out@[j] == old_out[j]);
                    }
                }
                assert forall|i: int, j: int|
                    0 <= i < out@.len() && 0 <= j < rest@.len() implies out@[i].0@
                    != rest@[j].0@ by {
                    assert(old_rest[j + 1] == rest@[j]);
                    if i < out@.len() - 1 {
                        assert(out@[i] == old_out[i]);
                    }
                }
            }
        } else {
            proof {
                assert(pairs_map(out@) =~= pairs_map(taken).remove_keys(bk));
                assert forall|i: int, j: int|
                    0 <= i < out@.len() && 0 <= j < rest@.len() implies out@[i].0@
                    != rest@[j].0@ by {
                    assert(old_rest[j + 1] == rest@[j]);
                }
            }
        }
    }
    proof {
        assert(taken =~= a0);
    }
    let ghost out0 = out@;
    let ghost b0 = b@;
    let mut b = b;
    out.append(&mut b);
    proof {
        assert(out@ =~= out0 + b0);
        lemma_pairs_map_concat(out0, b0);
        assert(pairs_map(out@) =~= pairs_map(a0).union_prefer_right(pairs_map(b0)));
        assert forall|i: int| 0 <= i < out@.len() implies a0.contains(#[trigger] out@[i]) || b0.contains(
            out@[i],
        ) by {
            if i < out0.len() {
                assert(out@[i] == out0[i]);
            } else {
                assert(out@[i] == b0[i - out0.len()]);
            }
        }
        assert forall|i: int, j: int| 0 <= i < j < out@.len() implies out@[i].0@ != out@[j].0@ by {
            if i < out0.len() && j >= out0.len() {
                assert(out@[j] == b0[j - out0.len()]);
                lemma_pairs_map_keys(b0, out@[j].0@);
                assert(!bk.contains(out0[i].0@));
            } else if i >= out0.len() {
                assert(out@[i] == b0[i - out0.len()]);
                assert(out@[j] == b0[j - out0.len()]);
            }
        }
    }
    out
}

/// Takes `b` where it holds a value, `a` otherwise.
pub open spec fn prefer<T>(a: Option<T>, b: Option<T>) -> Option<T> {
    if b is Some {
        b
    } else {
        a
    }
}

/// The build configuration after `b` is merged into `a`, field by field.
pub open spec fn merged_build(a: BuildView, b: BuildView) -> BuildView {
    BuildView {
        env: b.env,
        xargo: prefer(a.xargo, b.xargo),
        build_std: prefer(a.build_std, b.build_std),
        default_target: prefer(a.default_target, b.default_target),
        pre_build: prefer(a.pre_build, b.pre_build),
        dockerfile: prefer(a.dockerfile, b.dockerfile),
    }
}

/// The configuration after `b` is merged into `a`.
pub open spec fn merged(a: CrossTomlView, b: CrossTomlView) -> CrossTomlView {
    CrossTomlView {
        targets: a.targets.union_prefer_right(b.targets),
        build: merged_build(a.build, b.build),
    }
}

/// The configuration of target `k`, if it has one.
pub open spec fn target_view(c: CrossTomlView, k: Seq<char>) -> Option<TargetConfigView> {
    if c.targets.contains_key(k) {
        Some(c.targets[k])
    } else {
        None
    }
}

pub open spec fn file_of(d: Option<DockerfileView>) -> Option<Seq<char>> {
    match d {
        Some(d) => Some(d.file),
        None => None,
    }
}

pub open spec fn context_of(d: Option<DockerfileView>) -> Option<Seq<char>> {
    match d {
        Some(d) => d.context,
        None => None,
    }
}

pub open spec fn args_of(d: Option<DockerfileView>) -> Option<Map<Seq<char>, Seq<char>>> {
    match d {
        Some(d) => d.build_args,
        None => None,
    }
}

/// Build arguments of the target and of the build, the target's winning where both set a key.
pub open spec fn merged_args(
    t: Option<Map<Seq<char>, Seq<char>>>,
    b: Option<Map<Seq<char>, Seq<char>>>,
) -> Option<Map<Seq<char>, Seq<char>>> {
    match (t, b) {
        (None, None) => None,
        (Some(t), None) => Some(t),
        (None, Some(b)) => Some(b),
        (Some(t), Some(b)) => Some(b.union_prefer_right(t)),
    }
}

pub open spec fn opt_slice(o: Option<&[String]>) -> Option<Seq<Seq<char>>> {
    match o {
        Some(s) => Some(strs(s@)),
        None => None,
    }
}

fn clone_opt_string(o: &Option<String>) -> (r: Option<String>)
    ensures
        r == *o,
{
    match o {
        Some(s) => Some(s.clone()),
        None => None,
    }
}

fn clone_pairs(v: &Vec<(String, String)>) -> (r: Vec<(String, String)>)
    ensures
        r@ == v@,
{
    let mut r: Vec<(String, String)> = Vec::new();
    let mut i: usize = 0;
    while i < v.len()
        invariant
            i <= v@.len(),
            r@ == v@.take(i as int),
        decreases v@.len() - i,
    {
        r.push((v[i].0.clone(), v[i].1.clone()));
        assert(r@ =~= v@.take(i + 1));
        i = i + 1;
    }
    assert(v@.take(i as int) =~= v@);
    r
}

fn as_opt_slice(o: &Option<Vec<String>>) -> (r: Option<&[String]>)
    ensures
        opt_slice(r) == opt_strs(*o),
{
    match o {
        Some(v) => Some(v.as_slice()),
        None => None,
    }
}

impl CrossToml {
    /// Merges another [`CrossToml`] into `self` and returns a new merged one.
    ///
    /// A target present in `other` takes `other`'s whole configuration; a field of
    /// `build` is taken from `other` where `other` sets it.
    pub fn merge(self, other: CrossToml) -> (r: Result<CrossToml, ConfigError>)
        requires
            self.wf(),
            other.wf(),
        ensures
            r is Ok,
            r->Ok_0.wf(),
            r->Ok_0@ == merged(self@, other@),
    {
        let CrossToml { targets: t1, build: b1 } = self;
        let CrossToml { targets: t2, build: b2 } = other;
        let ghost (g1, g2) = (t1@, t2@);
        let targets = merge_entries(t1, t2);
        let build = CrossBuildConfig {
            env: b2.env,
            xargo: if b2.xargo.is_some() { b2.xargo } else { b1.xargo },
            build_std: if b2.build_std.is_some() { b2.build_std } else { b1.build_std },
            default_target: if b2.default_target.is_some() {
                b2.default_target
            } else {
                b1.default_target
            },
            pre_build: if b2.pre_build.is_some() { b2.pre_build } else { b1.pre_build },
            dockerfile: if b2.dockerfile.is_some() { b2.dockerfile } else { b1.dockerfile },
        };
        let r = CrossToml { targets, build };
        proof {
            assert forall|i: int| 0 <= i < r.targets@.len() implies dockerfile_wf(
                #[trigger] r.targets@[i].1.dockerfile,
            ) by {
                if g1.contains(r.targets@[i]) {
                    let j = choose|j: int| 0 <= j < g1.len() && g1[j] == r.targets@[i];
                    assert(dockerfile_wf(g1[j].1.dockerfile));
                } else {
                    let j = choose|j: int| 0 <= j < g2.len() && g2[j] == r.targets@[i];
                    assert(dockerfile_wf(g2[j].1.dockerfile));
                }
            }
            assert(r@.build == merged_build(b1@, b2@));
        }
        Ok(r)
    }

    /// Returns the configuration of a specific `target`.
    fn get_target(&self, target: &Target) -> (r: Option<&CrossTargetConfig>)
        ensures
            match r {
                Some(c) => target_view(self@, target@) == Some(c@) && exists|i: int|
                    0 <= i < self.targets@.len() && self.targets@[i].1 == *c,
                None => target_view(self@, target@) is None,
            },
    {
        entry_get(&self.targets, target.triple())
    }

    /// Returns the `target.{}.image` part of the configuration.
    pub fn image(&self, target: &Target) -> (r: Option<String>)
        ensures
            opt_str(r) == match target_view(self@, target@) {
                Some(t) => t.image,
                None => None,
            },
    {
        match self.get_target(target) {
            Some(t) => clone_opt_string(&t.image),
            None => None,
        }
    }

    /// Returns the `target.{}.runner` part of the configuration.
    pub fn runner(&self, target: &Target) -> (r: Option<String>)
        ensures
            opt_str(r) == match target_view(self@, target@) {
                Some(t) => t.runner,
                None => None,
            },
    {
        match self.get_target(target) {
            Some(t) => clone_opt_string(&t.runner),
            None => None,
        }
    }

    /// Returns the `{}.dockerfile` or `{}.dockerfile.file` part of the configuration:
    /// the target's where it sets one, else the build's.
    pub fn dockerfile(&self, target: &Target) -> (r: Option<String>)
        ensures
            opt_str(r) == prefer(
                file_of(self@.build.dockerfile),
                match target_view(self@, target@) {
                    Some(t) => file_of(t.dockerfile),
                    None => None,
                },
            ),
    {
        if let Some(t) = self.get_target(target) {
            if let Some(d) = &t.dockerfile {
                return Some(d.file.clone());
            }
        }
        match &self.build.dockerfile {
            Some(d) => Some(d.file.clone()),
            None => None,
        }
    }

    /// Returns the `{}.dockerfile.context` part of the configuration:
    /// the target's where it sets one, else the build's.
    pub fn dockerfile_context(&self, target: &Target) -> (r: Option<String>)
        ensures
            opt_str(r) == prefer(
                context_of(self@.build.dockerfile),
                match target_view(self@, target@) {
                    Some(t) => context_of(t.dockerfile),
                    None => None,
                },
            ),
    {
        if let Some(t) = self.get_target(target) {
            if let Some(d) = &t.dockerfile {
                if let Some(c) = &d.context {
                    return Some(c.clone());
                }
            }
        }
        match &self.build.dockerfile {
            Some(d) => clone_opt_string(&d.context),
            None => None,
        }
    }

    /// Returns the `{}.dockerfile.build-args` part of the configuration: the build's
    /// arguments and the target's in one map, the target's winning on a shared key.
    pub fn dockerfile_build_args(&self, target: &Target) -> (r: Option<Vec<(String, String)>>)
        requires
            self.wf(),
        ensures
            match r {
                Some(v) => keys_unique(v@),
                None => true,
            },
            match r {
                Some(v) => Some(pairs_map(v@)),
                None => None::<Map<Seq<char>, Seq<char>>>,
            } == merged_args(
                match target_view(self@, target@) {
                    Some(t) => args_of(t.dockerfile),
                    None => None,
                },
                args_of(self@.build.dockerfile),
            ),
    {
        let mut t_args: Option<Vec<(String, String)>> = None;
        if let Some(t) = self.get_target(target) {
            if let Some(d) = &t.dockerfile {
                if let Some(a) = &d.build_args {
                    proof {
                        let i = choose|i: int| 0 <= i < self.targets@.len() && self.targets@[i].1 == *t;
                        assert(dockerfile_wf(self.targets@[i].1.dockerfile));
                    }
                    t_args = Some(clone_pairs(a));
                }
            }
        }
        let mut b_args: Option<Vec<(String, String)>> = None;
        if let Some(d) = &self.build.dockerfile {
            if let Some(a) = &d.build_args {
                b_args = Some(clone_pairs(a));
            }
        }
        match (t_args, b_args) {
            (None, None) => None,
            (Some(t), None) => Some(t),
            (None, Some(b)) => Some(b),
            (Some(t), Some(b)) => Some(merge_entries(b, t)),
        }
    }

    /// Returns the `build.pre-build` and `target.{}.pre-build` parts of the configuration.
    pub fn pre_build(&self, target: &Target) -> (r: (Option<&[String]>, Option<&[String]>))
        ensures
            opt_slice(r.0) == self@.build.pre_build,
            opt_slice(r.1) == match target_view(self@, target@) {
                Some(t) => t.pre_build,
                None => None,
            },
    {
        let t = match self.get_target(target) {
            Some(t) => as_opt_slice(&t.pre_build),
            None => None,
        };
        (as_opt_slice(&self.build.pre_build), t)
    }

    /// Returns the `build.xargo` and the `target.{}.xargo` parts of the configuration.
    pub fn xargo(&self, target: &Target) -> (r: (Option<bool>, Option<bool>))
        ensures
            r.0 == self@.build.xargo,
            r.1 == match target_view(self@, target@) {
                Some(t) => t.xargo,
                None => None,
            },
    {
        let t = match self.get_target(target) {
            Some(t) => t.xargo,
            None => None,
        };
        (self.build.xargo, t)
    }

    /// Returns the `build.build-std` and the `target.{}.build-std` parts of the configuration.
    pub fn build_std(&self, target: &Target) -> (r: (Option<bool>, Option<bool>))
        ensures
            r.0 == self@.build.build_std,
            r.1 == match target_view(self@, target@) {
                Some(t) => t.build_std,
                None => None,
            },
    {
        let t = match self.get_target(target) {
            Some(t) => t.build_std,
            None => None,
        };
        (self.build.build_std, t)
    }

    /// Returns the environment variables to pass through, for `build` and for the target.
    pub fn env_passthrough(&self, target: &Target) -> (r: (Option<&[String]>, Option<&[String]>))
        ensures
            opt_slice(r.0) == self@.build.env.passthrough,
            opt_slice(r.1) == match target_view(self@, target@) {
                Some(t) => t.env.passthrough,
                None => None,
            },
    {
        let t = match self.get_target(target) {
            Some(t) => as_opt_slice(&t.env.passthrough),
            None => None,
        };
        (as_opt_slice(&self.build.env.passthrough), t)
    }

    /// Returns the volumes to mount, for `build` and for the target.
    pub fn env_volumes(&self, target: &Target) -> (r: (Option<&[String]>, Option<&[String]>))
        ensures
            opt_slice(r.0) == self@.build.env.volumes,
            opt_slice(r.1) == match target_view(self@, target@) {
                Some(t) => t.env.volumes,
                None => None,
            },
    {
        let t = match self.get_target(target) {
            Some(t) => as_opt_slice(&t.env.volumes),
            None => None,
        };
        (as_opt_slice(&self.build.env.volumes), t)
    }

    /// Returns the default target to build, resolved against the known triples.
    pub fn default_target(&self, target_list: &TargetList) -> (r: Option<Target>)
        ensures
            match r {
                Some(t) => self@.build.default_target == Some(t@) && (t is BuiltIn)
                    == target_list.contains(t@),
                None => self@.build.default_target is None,
            },
    {
        match &self.build.default_target {
            Some(t) => Some(Target::from(t.as_str(), target_list)),
            None => None,
        }
    }
}

/// After a merge, a target that `other` configures has exactly `other`'s configuration,
/// a target that only `self` configures keeps `self`'s, and no other target appears.
pub proof fn lemma_merge_targets(a: CrossTomlView, b: CrossTomlView, k: Seq<char>)
    ensures
        b.targets.contains_key(k) ==> merged(a, b).targets.contains_key(k) && merged(
            a,
            b,
        ).targets[k] == b.targets[k],
        a.targets.contains_key(k) && !b.targets.contains_key(k) ==> merged(
            a,
            b,
        ).targets.contains_key(k) && merged(a, b).targets[k] == a.targets[k],
        merged(a, b).targets.contains_key(k) <==> a.targets.contains_key(k)
            || b.targets.contains_key(k),
{
}

/// After a merge, each field of the build configuration is `other`'s where `other`
/// sets it and `self`'s otherwise; the environment table is always `other`'s, as it
/// is never absent.
pub proof fn lemma_merge_build(a: CrossTomlView, b: CrossTomlView)
    ensures
        merged(a, b).build.env == b.build.env,
        b.build.xargo is Some ==> merged(a, b).build.xargo == b.build.xargo,
        b.build.xargo is None ==> merged(a, b).build.xargo == a.build.xargo,
        b.build.build_std is Some ==> merged(a, b).build.build_std == b.build.build_std,
        b.build.build_std is None ==> merged(a, b).build.build_std == a.build.build_std,
        b.build.default_target is Some ==> merged(a, b).build.default_target
            == b.build.default_target,
        b.build.default_target is None ==> merged(a, b).build.default_target
            == a.build.default_target,
        b.build.pre_build is Some ==> merged(a, b).build.pre_build == b.build.pre_build,
        b.build.pre_build is None ==> merged(a, b).build.pre_build == a.build.pre_build,
        b.build.dockerfile is Some ==> merged(a, b).build.dockerfile == b.build.dockerfile,
        b.build.dockerfile is None ==> merged(a, b).build.dockerfile == a.build.dockerfile,
{
}

fn strs_eq(a: &Vec<String>, b: &Vec<String>) -> (r: bool)
    ensures
        r == (strs(a@) == strs(b@)),
{
    if a.len() != b.len() {
        assert(strs(a@).len() != strs(b@).len());
        return false;
    }
    let mut i: usize = 0;
    while i < a.len()
        invariant
            a@.len() == b@.len(),
            i <= a@.len(),
            forall|j: int| 0 <= j < i ==> a@[j]@ == b@[j]@,
        decreases a@.len() - i,
    {
        if a[i] != b[i] {
            assert(strs(a@)[i as int] != strs(b@)[i as int]);
            return false;
        }
        i = i + 1;
    }
    assert(strs(a@) =~= strs(b@));
    true
}

fn opt_strs_eq(a: &Option<Vec<String>>, b: &Option<Vec<String>>) -> (r: bool)
    ensures
        r == (opt_strs(*a) == opt_strs(*b)),
{
    match (a, b) {
        (Some(x), Some(y)) => strs_eq(x, y),
        (None, None) => true,
        _ => false,
    }
}

fn opt_string_eq(a: &Option<String>, b: &Option<String>) -> (r: bool)
    ensures
        r == (opt_str(*a) == opt_str(*b)),
{
    match (a, b) {
        (Some(x), Some(y)) => x.eq(y),
        (None, None) => true,
        _ => false,
    }
}

fn args_eq(a: &Vec<(String, String)>, b: &Vec<(String, String)>) -> (r: bool)
    ensures
        r == (pairs_map(a@) == pairs_map(b@)),
{
    let mut i: usize = 0;
    while i < a.len()
        invariant
            i <= a@.len(),
            forall|x: int|
                0 <= x < i ==> pairs_map(b@).contains_key(#[trigger] a@[x].0@) && pairs_map(
                    b@,
                )[a@[x].0@] == pairs_map(a@)[a@[x].0@],
        decreases a@.len() - i,
    {
        proof {
            lemma_pairs_map_keys(a@, a@[i as int].0@);
        }
        let va = entry_get(a, a[i].0.as_str());
        let vb = entry_get(b, a[i].0.as_str());
        match (va, vb) {
            (Some(x), Some(y)) => {
                if !x.eq(y) {
                    return false;
                }
            },
            _ => {
                return false;
            },
        }
        i = i + 1;
    }
    let mut j: usize = 0;
    while j < b.len()
        invariant
            j <= b@.len(),
            i == a@.len(),
            forall|x: int|
                0 <= x < i ==> pairs_map(b@).contains_key(#[trigger] a@[x].0@) && pairs_map(
                    b@,
                )[a@[x].0@] == pairs_map(a@)[a@[x].0@],
            forall|x: int| 0 <= x < j ==> pairs_map(a@).contains_key(#[trigger] b@[x].0@),
        decreases b@.len() - j,
    {
        proof {
            lemma_pairs_map_keys(b@, b@[j as int].0@);
        }
        if entry_get(a, b[j].0.as_str()).is_none() {
            return false;
        }
        j = j + 1;
    }
    proof {
        assert forall|k: Seq<char>| #[trigger] pairs_map(a@).contains_key(k) implies pairs_map(
            b@,
        ).contains_key(k) && pairs_map(b@)[k] == pairs_map(a@)[k] by {
            lemma_pairs_map_keys(a@, k);
        }
        assert forall|k: Seq<char>| #[trigger] pairs_map(b@).contains_key(k) implies pairs_map(
            a@,
        ).contains_key(k) by {
            lemma_pairs_map_keys(b@, k);
        }
        assert(pairs_map(a@) =~= pairs_map(b@));
    }
    true
}

impl PartialEq for CrossEnvConfig {
    fn eq(&self, other: &CrossEnvConfig) -> (r: bool) {
        opt_strs_eq(&self.volumes, &other.volumes) && opt_strs_eq(
            &self.passthrough,
            &other.passthrough,
        )
    }
}

impl vstd::std_specs::cmp::PartialEqSpecImpl for CrossEnvConfig {
    open spec fn obeys_eq_spec() -> bool {
        true
    }

    open spec fn eq_spec(&self, other: &CrossEnvConfig) -> bool {
        self@ == other@
    }
}

impl Eq for CrossEnvConfig {
}

impl PartialEq for CrossTargetDockerfileConfig {
    fn eq(&self, other: &CrossTargetDockerfileConfig) -> (r: bool) {
        let args = match (&self.build_args, &other.build_args) {
            (Some(a), Some(b)) => args_eq(a, b),
            (None, None) => true,
            _ => false,
        };
        self.file == other.file && opt_string_eq(&self.context, &other.context) && args
    }
}

impl vstd::std_specs::cmp::PartialEqSpecImpl for CrossTargetDockerfileConfig {
    open spec fn obeys_eq_spec() -> bool {
        true
    }

    open spec fn eq_spec(&self, other: &CrossTargetDockerfileConfig) -> bool {
        self@ == other@
    }
}

impl Eq for CrossTargetDockerfileConfig {
}

fn opt_dockerfile_eq(
    a: &Option<CrossTargetDockerfileConfig>,
    b: &Option<CrossTargetDockerfileConfig>,
) -> (r: bool)
    ensures
        r == (opt_dockerfile(*a) == opt_dockerfile(*b)),
{
    match (a, b) {
        (Some(x), Some(y)) => x.eq(y),
        (None, None) => true,
        _ => false,
    }
}

impl PartialEq for CrossBuildConfig {
    fn eq(&self, other: &CrossBuildConfig) -> (r: bool) {
        self.env == other.env && self.xargo == other.xargo && self.build_std == other.build_std
            && opt_string_eq(&self.default_target, &other.default_target) && opt_strs_eq(
            &self.pre_build,
            &other.pre_build,
        ) && opt_dockerfile_eq(&self.dockerfile, &other.dockerfile)
    }
}

impl vstd::std_specs::cmp::PartialEqSpecImpl for CrossBuildConfig {
    open spec fn obeys_eq_spec() -> bool {
        true
    }

    open spec fn eq_spec(&self, other: &CrossBuildConfig) -> bool {
        self@ == other@
    }
}

impl Eq for CrossBuildConfig {
}

impl PartialEq for CrossTargetConfig {
    fn eq(&self, other: &CrossTargetConfig) -> (r: bool) {
        self.xargo == other.xargo && self.build_std == other.build_std && opt_string_eq(
            &self.image,
            &other.image,
        ) && opt_dockerfile_eq(&self.dockerfile, &other.dockerfile) && opt_strs_eq(
            &self.pre_build,
            &other.pre_build,
        ) && opt_string_eq(&self.runner, &other.runner) && self.env == other.env
    }
}

impl vstd::std_specs::cmp::PartialEqSpecImpl for CrossTargetConfig {
    open spec fn obeys_eq_spec() -> bool {
        true
    }

    open spec fn eq_spec(&self, other: &CrossTargetConfig) -> bool {
        self@ == other@
    }
}

impl Eq for CrossTargetConfig {
}

impl PartialEq for CrossToml {
    /// Equal when both configure the same targets alike, whatever the order of the
    /// entries, and have equal build configurations.
    fn eq(&self, other: &CrossToml) -> (r: bool) {
        let a = &self.targets;
        let b = &other.targets;
        let mut i: usize = 0;
        while i < a.len()
            invariant
                i <= a@.len(),
                a@ == self.targets@,
                b@ == other.targets@,
                forall|x: int|
                    0 <= x < i ==> self@.targets.contains_key(#[trigger] a@[x].0@)
                        && other@.targets.contains_key(a@[x].0@) && other@.targets[a@[x].0@]
                        == self@.targets[a@[x].0@],
            decreases a@.len() - i,
        {
            match (self.get_target(&a[i].0), other.get_target(&a[i].0)) {
                (Some(x), Some(y)) => {
                    if !x.eq(y) {
                        return false;
                    }
                },
                (Some(_), None) => {
                    return false;
                },
                (None, _) => {
                    proof {
                        let k = a@[i as int].0@;
                        lemma_pairs_map_keys(a@, k);
                        assert(a@[i as int].0@ == k);
                        assert(pairs_map(a@).contains_key(k));
                    }
                    return false;
                },
            }
            i = i + 1;
        }
        let mut j: usize = 0;
        while j < b.len()
            invariant
                j <= b@.len(),
                i == a@.len(),
                a@ == self.targets@,
                b@ == other.targets@,
                forall|x: int|
                    0 <= x < i ==> self@.targets.contains_key(#[trigger] a@[x].0@)
                        && other@.targets.contains_key(a@[x].0@) && other@.targets[a@[x].0@]
                        == self@.targets[a@[x].0@],
                forall|x: int| 0 <= x < j ==> self@.targets.contains_key(#[trigger] b@[x].0@),
            decreases b@.len() - j,
        {
            if self.get_target(&b[j].0).is_none() {
                proof {
                    let k = b@[j as int].0@;
                    lemma_pairs_map_keys(b@, k);
                    assert(b@[j as int].0@ == k);
                    assert(pairs_map(b@).contains_key(k));
                }
                return false;
            }
            j = j + 1;
        }
        proof {
            assert forall|k: Seq<char>| #[trigger] self@.targets.contains_key(k) implies other@.targets.contains_key(k)
                && other@.targets[k] == self@.targets[k] by {
                lemma_pairs_map_keys(a@, k);
            }
            assert forall|k: Seq<char>| #[trigger] other@.targets.contains_key(k) implies self@.targets.contains_key(k) by {
                lemma_pairs_map_keys(b@, k);
            }
            assert(self@.targets =~= other@.targets);
        }
        self.build == other.build
    }
}

impl vstd::std_specs::cmp::PartialEqSpecImpl for CrossToml {
    open spec fn obeys_eq_spec() -> bool {
        true
    }

    open spec fn eq_spec(&self, other: &CrossToml) -> bool {
        self@ == other@
    }
}

impl Eq for CrossToml {
}

} // verus!
