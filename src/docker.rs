use vstd::prelude::*;

use crate::cross_toml::opt_str;
use crate::target::{deb_arch_of, Target};
use crate::toml_value::strs;
use vstd::utf8::encode_utf8;

verus! {

pub const CROSS_CUSTOM_DOCKERFILE_IMAGE_PREFIX: &'static str = "cross-custom-";

/// A build file: one on disk, or content to be written before the build.
#[derive(Debug, PartialEq, Eq)]
pub enum Dockerfile {
    File { path: String, context: Option<String>, name: Option<String> },
    Custom { content: String },
}

/// What the build needs to know of the project: both paths are absolute.
#[derive(Debug, Clone, PartialEq, Eq)]
pub struct CargoMetadata {
    pub workspace_root: String,
    pub target_directory: String,
}

/// Why an image could not be named.
#[derive(Debug, Clone, PartialEq, Eq)]
pub enum ImageError {
    /// The workspace root has no final component (it is a root, or ends in `..`).
    NoWorkspaceName,
    /// The workspace root is longer than the path hash can take (1024 bytes).
    PathTooLong,
}

/// The final component of a path, as `std::path::Path::file_name` gives it.
pub uninterp spec fn file_name_of(path: Seq<char>) -> Option<Seq<char>>;

/// Relies on std::path::Path::file_name: the final component of `path`, or none where
/// the path is a root or ends in `..`.
#[verifier::external_body]
fn final_component(path: &str) -> (r: Option<String>)
    ensures
        opt_str(r) == file_name_of(path@),
{
    match std::path::Path::new(path).file_name() {
        Some(n) => Some(n.to_string_lossy().into_owned()),
        None => None,
    }
}

/// `part` joined onto `base`, as `std::path::Path::join` gives it.
pub uninterp spec fn path_join_of(base: Seq<char>, part: Seq<char>) -> Seq<char>;

/// Relies on std::path::Path::join: `part` appended to `base` as a path.
#[verifier::external_body]
fn join_paths(base: &str, part: &str) -> (r: String)
    ensures
        r@ == path_join_of(base@, part@),
{
    std::path::Path::new(base).join(part).to_string_lossy().into_owned()
}

/// The SHA-1 digest of `data` in lowercase hexadecimal.
pub uninterp spec fn sha1_hex_of(data: Seq<u8>) -> Seq<char>;

/// Relies on const_sha1::sha1 and the `Display` of its `Digest`: forty hexadecimal
/// digits of the SHA-1 of `data`. Its buffer takes at most 1024 bytes.
#[verifier::external_body]
fn sha1_hex(data: &[u8]) -> (r: String)
    requires
        data@.len() <= 1024,
    ensures
        r@ == sha1_hex_of(data@),
        r@.len() == 40,
{
    const_sha1::sha1(&const_sha1::ConstBuffer::from_slice(data)).to_string()
}

/// The words of `s`, as `str::split_whitespace` gives them.
pub uninterp spec fn whitespace_words_of(s: Seq<char>) -> Seq<Seq<char>>;

/// Relies on str::split_whitespace: the words of `value`; quotes are not interpreted.
#[verifier::external_body]
fn parse_docker_opts(value: &str) -> (r: Vec<String>)
    ensures
        strs(r@) == whitespace_words_of(value@),
{
    value.split_whitespace().map(|w| w.to_string()).collect()
}

/// The hash of a workspace root that sets apart two roots with the same final component.
pub open spec fn path_hash_of(root: Seq<char>) -> Seq<char> {
    sha1_hex_of(encode_utf8(root)).take(5)
}

/// The first five hexadecimal digits of the SHA-1 of the path's bytes.
pub fn path_hash(root: &str) -> (r: Result<String, ImageError>)
    ensures
        encode_utf8(root@).len() <= 1024 ==> (r matches Ok(h) && h@ == path_hash_of(root@)
            && h@.len() == 5),
        encode_utf8(root@).len() > 1024 ==> r == Err::<String, ImageError>(ImageError::PathTooLong),
{
    let bytes = root.as_bytes();
    assert(bytes@ == encode_utf8(root@));
    if bytes.len() > 1024 {
        return Err(ImageError::PathTooLong);
    }
    let hex = sha1_hex(bytes);
    let h = hex.as_str().substring_char(0, 5);
    Ok(h.to_owned())
}

/// The tag of an image that no name was given for.
pub open spec fn image_tag(name: Seq<char>, triple: Seq<char>, hash: Seq<char>, custom: bool) -> Seq<
    char,
> {
    "cross-custom-"@ + name + ":"@ + triple + "-"@ + hash + if custom {
        "-pre-build"@
    } else {
        Seq::empty()
    }
}

pub open spec fn label_domain() -> Seq<char> {
    "org.cross-rs"@
}

/// The `--build-arg` flags for a sequence of arguments, in order.
pub open spec fn build_arg_flags(args: Seq<(String, String)>) -> Seq<Seq<char>>
    decreases args.len(),
{
    if args.len() == 0 {
        Seq::empty()
    } else {
        build_arg_flags(args.drop_last()) + seq![
            "--build-arg"@,
            args.last().0@ + "="@ + args.last().1@,
        ]
    }
}

impl Dockerfile {
    pub open spec fn is_file(&self) -> bool {
        self is File
    }

    pub open spec fn context_spec(&self) -> Option<Seq<char>> {
        match self {
            Dockerfile::File { context, .. } => opt_str(*context),
            _ => None,
        }
    }

    /// The image name: the given one where the build file carries one, else a tag
    /// made of the workspace's name, the target and the hash of the workspace root.
    pub fn image_name(&self, target: &Target, metadata: &CargoMetadata) -> (r: Result<
        String,
        ImageError,
    >)
        ensures
            match self {
                Dockerfile::File { name: Some(n), .. } => (r matches Ok(s) && s@ == n@),
                _ => match file_name_of(metadata.workspace_root@) {
                    None => r == Err::<String, ImageError>(ImageError::NoWorkspaceName),
                    Some(name) => if encode_utf8(metadata.workspace_root@).len() > 1024 {
                        r == Err::<String, ImageError>(ImageError::PathTooLong)
                    } else {
                        (r matches Ok(s) && s@ == image_tag(
                            name,
                            target@,
                            path_hash_of(metadata.workspace_root@),
                            self is Custom,
                        ) && path_hash_of(metadata.workspace_root@).len() == 5)
                    },
                },
            },
    {
        if let Dockerfile::File { name: Some(n), .. } = self {
            return Ok(n.clone());
        }
        let name = match final_component(metadata.workspace_root.as_str()) {
            Some(n) => n,
            None => return Err(ImageError::NoWorkspaceName),
        };
        let hash = match path_hash(metadata.workspace_root.as_str()) {
            Ok(h) => h,
            Err(e) => return Err(e),
        };
        let tag = String::from_str(CROSS_CUSTOM_DOCKERFILE_IMAGE_PREFIX);
        let tag = tag.concat(name.as_str());
        let tag = tag.concat(":");
        let tag = tag.concat(target.triple());
        let tag = tag.concat("-");
        let tag = tag.concat(hash.as_str());
        let is_file = match self {
            Dockerfile::File { .. } => true,
            _ => false,
        };
        if is_file {
            assert(tag@ =~= tag@ + Seq::<char>::empty());
            Ok(tag)
        } else {
            Ok(tag.concat("-pre-build"))
        }
    }

    /// The build context given with an on-disk build file.
    pub fn context(&self) -> (r: Option<String>)
        ensures
            opt_str(r) == self.context_spec(),
    {
        match self {
            Dockerfile::File { context: Some(c), .. } => Some(c.clone()),
            _ => None,
        }
    }
}

/// The arguments that follow `build` on the engine's command line.
pub open spec fn build_command(
    file: Dockerfile,
    root: Seq<char>,
    triple: Seq<char>,
    image: Seq<char>,
    args: Seq<(String, String)>,
    base_image: Option<Seq<char>>,
    file_path: Seq<char>,
    build_opts: Option<Seq<char>>,
) -> Seq<Seq<char>> {
    seq![
        "--platform"@,
        "linux/amd64"@,
        "--label"@,
        label_domain() + ".for-cross-target="@ + triple,
        "--label"@,
        label_domain() + ".workspace_root="@ + root,
        "--tag"@,
        image,
    ] + build_arg_flags(args) + match deb_arch_of(triple) {
        Some(a) => seq!["--build-arg"@, "CROSS_DEB_ARCH="@ + a],
        None => Seq::empty(),
    } + match (file.is_file(), base_image) {
        (true, Some(b)) => seq!["--build-arg"@, "CROSS_BASE_IMAGE="@ + b],
        _ => Seq::empty(),
    } + seq!["--file"@, file_path] + match build_opts {
        Some(o) => whitespace_words_of(o),
        None => Seq::empty(),
    } + seq![
        match file.context_spec() {
            Some(c) => c,
            None => "."@,
        },
    ]
}

/// Two workspaces with the same final component get the same tag, for one target and
/// one kind of build file, exactly when the hashes of their roots agree; the tag is a
/// function of those values alone; and the tag for synthesized content is the tag for
/// an on-disk build file with `-pre-build` added.
pub proof fn lemma_image_tags(
    name: Seq<char>,
    triple: Seq<char>,
    hash1: Seq<char>,
    hash2: Seq<char>,
    custom: bool,
)
    requires
        hash1.len() == 5,
        hash2.len() == 5,
    ensures
        (image_tag(name, triple, hash1, custom) == image_tag(name, triple, hash2, custom)) <==> (
        hash1 == hash2),
        image_tag(name, triple, hash1, true) == image_tag(name, triple, hash1, false)
            + "-pre-build"@,
{
    let head = "cross-custom-"@ + name + ":"@ + triple + "-"@;
    let t1 = image_tag(name, triple, hash1, custom);
    let t2 = image_tag(name, triple, hash2, custom);
    let tail: Seq<char> = if custom {
        "-pre-build"@
    } else {
        Seq::empty()
    };
    assert(t1 =~= head + hash1 + tail);
    assert(t2 =~= head + hash2 + tail);
    if t1 == t2 {
        assert(t1.subrange(head.len() as int, head.len() + 5int) =~= hash1);
        assert(t2.subrange(head.len() as int, head.len() + 5int) =~= hash2);
    }
    assert(image_tag(name, triple, hash1, false) =~= head + hash1);
}

impl Dockerfile {
    /// Where synthesized content is written for `target`: a file named after the
    /// target, under the target's directory in the build output.
    pub fn custom_dockerfile_path(metadata: &CargoMetadata, target: &Target) -> (r: String)
        ensures
            r@ == path_join_of(
                path_join_of(metadata.target_directory@, target@),
                "Dockerfile."@ + target@ + "-custom"@,
            ),
    {
        let dir = join_paths(metadata.target_directory.as_str(), target.triple());
        let file = String::from_str("Dockerfile.");
        let file = file.concat(target.triple());
        let file = file.concat("-custom");
        join_paths(dir.as_str(), file.as_str())
    }

    /// The arguments that follow `build` on the engine's command line, in order:
    /// platform, labels, tag, build arguments, the target's Debian architecture, the
    /// base image (for an on-disk build file), the build file, the words of the extra
    /// options and the context.
    pub fn build_command_args(
        &self,
        metadata: &CargoMetadata,
        target: &Target,
        image_name: &str,
        build_args: &Vec<(String, String)>,
        base_image: Option<String>,
        file_path: &str,
        build_opts: Option<&str>,
    ) -> (r: Vec<String>)
        ensures
            strs(r@) == build_command(
                *self,
                metadata.workspace_root@,
                target@,
                image_name@,
                build_args@,
                opt_str(base_image),
                file_path@,
                match build_opts {
                    Some(o) => Some(o@),
                    None => None,
                },
            ),
    {
        let mut out: Vec<String> = Vec::new();
        out.push(String::from_str("--platform"));
        out.push(String::from_str("linux/amd64"));
        out.push(String::from_str("--label"));
        out.push(String::from_str("org.cross-rs").concat(".for-cross-target=").concat(target.triple()));
        out.push(String::from_str("--label"));
        out.push(
            String::from_str("org.cross-rs").concat(".workspace_root=").concat(
                metadata.workspace_root.as_str(),
            ),
        );
        out.push(String::from_str("--tag"));
        out.push(String::from_str(image_name));
        let ghost head = strs(out@);
        assert(head =~= seq![
            "--platform"@,
            "linux/amd64"@,
            "--label"@,
            "org.cross-rs"@ + ".for-cross-target="@ + target@,
            "--label"@,
            "org.cross-rs"@ + ".workspace_root="@ + metadata.workspace_root@,
            "--tag"@,
            image_name@,
        ]);
        let mut i: usize = 0;
        while i < build_args.len()
            invariant
                i <= build_args@.len(),
                strs(out@) == head + build_arg_flags(build_args@.take(i as int)),
            decreases build_args@.len() - i,
        {
            assert(build_args@.take(i + 1).drop_last() =~= build_args@.take(i as int));
            let ghost before = strs(out@);
            out.push(String::from_str("--build-arg"));
            let kv = build_args[i].0.clone().concat("=").concat(build_args[i].1.as_str());
            out.push(kv);
            assert(strs(out@) =~= before + seq!["--build-arg"@, kv@]);
            i = i + 1;
        }
        assert(build_args@.take(i as int) =~= build_args@);
        let ghost s1 = strs(out@);
        if let Some(arch) = target.deb_arch() {
            out.push(String::from_str("--build-arg"));
            out.push(String::from_str("CROSS_DEB_ARCH=").concat(arch));
        }
        let ghost s2 = strs(out@);
        assert(s2 =~= s1 + match deb_arch_of(target@) {
            Some(a) => seq!["--build-arg"@, "CROSS_DEB_ARCH="@ + a],
            None => Seq::<Seq<char>>::empty(),
        });
        let is_file = match self {
            Dockerfile::File { .. } => true,
            _ => false,
        };
        if is_file {
            if let Some(b) = &base_image {
                out.push(String::from_str("--build-arg"));
                out.push(String::from_str("CROSS_BASE_IMAGE=").concat(b.as_str()));
            }
        }
        let ghost s3 = strs(out@);
        assert(s3 =~= s2 + match (self.is_file(), opt_str(base_image)) {
            (true, Some(b)) => seq!["--build-arg"@, "CROSS_BASE_IMAGE="@ + b],
            _ => Seq::<Seq<char>>::empty(),
        });
        out.push(String::from_str("--file"));
        out.push(String::from_str(file_path));
        let ghost s4 = strs(out@);
        assert(s4 =~= s3 + seq!["--file"@, file_path@]);
        let extra_opts = match build_opts {
            Some(o) => parse_docker_opts(o),
            None => Vec::new(),
        };
        let mut j: usize = 0;
        while j < extra_opts.len()
            invariant
                j <= extra_opts@.len(),
                s4 == s3 + seq!["--file"@, file_path@],
                strs(out@) == s4 + strs(extra_opts@).take(j as int),
            decreases extra_opts@.len() - j,
        {
            let ghost before = strs(out@);
            out.push(extra_opts[j].clone());
            assert(strs(out@) =~= s4 + strs(extra_opts@).take(j + 1)) by {
                assert(strs(out@) =~= before.push(extra_opts@[j as int]@));
            }
            j = j + 1;
        }
        assert(strs(extra_opts@).take(j as int) =~= strs(extra_opts@));
        assert(strs(extra_opts@) == match build_opts {
            Some(o) => whitespace_words_of(o@),
            None => Seq::<Seq<char>>::empty(),
        });
        let ghost s5 = strs(out@);
        match self.context() {
            Some(c) => out.push(c),
            None => out.push(String::from_str(".")),
        }
        assert(strs(out@) =~= s5 + seq![
            match self.context_spec() {
                Some(c) => c,
                None => "."@,
            },
        ]);
        assert(strs(out@) =~= build_command(
            *self,
            metadata.workspace_root@,
            target@,
            image_name@,
            build_args@,
            opt_str(base_image),
            file_path@,
            match build_opts {
                Some(o) => Some(o@),
                None => None,
            },
        ));
        out
    }
}

} // verus!
