use vstd::prelude::*;

verus! {

/// Whether two strings hold the same characters.
pub fn str_eq(a: &str, b: &str) -> (r: bool)
    ensures
        r == (a@ == b@),
{
    let n = a.unicode_len();
    if n != b.unicode_len() {
        return false;
    }
    let mut i: usize = 0;
    while i < n
        invariant
            n == a@.len(),
            n == b@.len(),
            i <= n,
            forall|j: int| 0 <= j < i ==> a@[j] == b@[j],
        decreases n - i,
    {
        if a.get_char(i) != b.get_char(i) {
            return false;
        }
        i = i + 1;
    }
    assert(a@ =~= b@);
    true
}

/// A compilation target, named by its triple.
#[derive(Debug, Clone)]
pub enum Target {
    BuiltIn { triple: String },
    Custom { triple: String },
}

/// The triples that the toolchain knows.
#[derive(Debug, Clone)]
pub struct TargetList {
    pub triples: Vec<String>,
}

impl View for Target {
    type V = Seq<char>;

    open spec fn view(&self) -> Seq<char> {
        match self {
            Target::BuiltIn { triple } => triple@,
            Target::Custom { triple } => triple@,
        }
    }
}

impl TargetList {
    pub open spec fn contains(&self, triple: Seq<char>) -> bool {
        exists|i: int| 0 <= i < self.triples@.len() && self.triples@[i]@ == triple
    }

    /// Whether the list holds `triple`.
    pub fn contains_triple(&self, triple: &str) -> (r: bool)
        ensures
            r == self.contains(triple@),
    {
        let mut i: usize = 0;
        while i < self.triples.len()
            invariant
                i <= self.triples@.len(),
                forall|j: int| 0 <= j < i ==> self.triples@[j]@ != triple@,
            decreases self.triples@.len() - i,
        {
            if str_eq(self.triples[i].as_str(), triple) {
                return true;
            }
            i = i + 1;
        }
        false
    }
}

/// The architecture name that Debian packages use for a triple, where one is known.
pub open spec fn deb_arch_of(triple: Seq<char>) -> Option<Seq<char>> {
    if triple == "aarch64-unknown-linux-gnu"@ {
        Some("arm64"@)
    } else if triple == "aarch64-unknown-linux-musl"@ {
        Some("musl-linux-arm64"@)
    } else if triple == "x86_64-unknown-linux-gnu"@ {
        Some("amd64"@)
    } else if triple == "x86_64-unknown-linux-musl"@ {
        Some("musl-linux-amd64"@)
    } else if triple == "arm-unknown-linux-gnueabi"@ {
        Some("armel"@)
    } else if triple == "arm-unknown-linux-gnueabihf"@ {
        Some("armhf"@)
    } else if triple == "armv7-unknown-linux-gnueabi"@ {
        Some("armel"@)
    } else if triple == "armv7-unknown-linux-gnueabihf"@ {
        Some("armhf"@)
    } else if triple == "thumbv7neon-unknown-linux-gnueabihf"@ {
        Some("armhf"@)
    } else if triple == "i586-unknown-linux-gnu"@ {
        Some("i386"@)
    } else if triple == "i686-unknown-linux-gnu"@ {
        Some("i386"@)
    } else if triple == "mips-unknown-linux-gnu"@ {
        Some("mips"@)
    } else if triple == "mipsel-unknown-linux-gnu"@ {
        Some("mipsel"@)
    } else if triple == "mips64-unknown-linux-gnuabi64"@ {
        Some("mips64"@)
    } else if triple == "mips64el-unknown-linux-gnuabi64"@ {
        Some("mips64el"@)
    } else if triple == "mips64-unknown-linux-muslabi64"@ {
        Some("musl-linux-mips64"@)
    } else if triple == "mips64el-unknown-linux-muslabi64"@ {
        Some("musl-linux-mips64el"@)
    } else if triple == "powerpc-unknown-linux-gnu"@ {
        Some("powerpc"@)
    } else if triple == "powerpc64-unknown-linux-gnu"@ {
        Some("ppc64"@)
    } else if triple == "powerpc64le-unknown-linux-gnu"@ {
        Some("ppc64el"@)
    } else if triple == "riscv64gc-unknown-linux-gnu"@ {
        Some("riscv64"@)
    } else if triple == "s390x-unknown-linux-gnu"@ {
        Some("s390x"@)
    } else if triple == "sparc64-unknown-linux-gnu"@ {
        Some("sparc64"@)
    } else {
        None
    }
}

impl Target {
    /// The target's triple.
    pub fn triple(&self) -> (r: &str)
        ensures
            r@ == self@,
    {
        match self {
            Target::BuiltIn { triple } => triple.as_str(),
            Target::Custom { triple } => triple.as_str(),
        }
    }

    /// A target for `triple`: built in where the list knows it, custom otherwise.
    pub fn from(triple: &str, target_list: &TargetList) -> (r: Target)
        ensures
            r@ == triple@,
            (r is BuiltIn) == target_list.contains(triple@),
    {
        if target_list.contains_triple(triple) {
            Target::BuiltIn { triple: triple.to_owned() }
        } else {
            Target::Custom { triple: triple.to_owned() }
        }
    }

    /// The Debian architecture for this target, where one is known.
    pub fn deb_arch(&self) -> (r: Option<&'static str>)
        ensures
            match r {
                Some(a) => deb_arch_of(self@) == Some(a@),
                None => deb_arch_of(self@) is None,
            },
    {
        let t = self.triple();
        if str_eq(t, "aarch64-unknown-linux-gnu") {
            Some("arm64")
        } else if str_eq(t, "aarch64-unknown-linux-musl") {
            Some("musl-linux-arm64")
        } else if str_eq(t, "x86_64-unknown-linux-gnu") {
            Some("amd64")
        } else if str_eq(t, "x86_64-unknown-linux-musl") {
            Some("musl-linux-amd64")
        } else if str_eq(t, "arm-unknown-linux-gnueabi") {
            Some("armel")
        } else if str_eq(t, "arm-unknown-linux-gnueabihf") {
            Some("armhf")
        } else if str_eq(t, "armv7-unknown-linux-gnueabi") {
            Some("armel")
        } else if str_eq(t, "armv7-unknown-linux-gnueabihf") {
            Some("armhf")
        } else if str_eq(t, "thumbv7neon-unknown-linux-gnueabihf") {
            Some("armhf")
        } else if str_eq(t, "i586-unknown-linux-gnu") {
            Some("i386")
        } else if str_eq(t, "i686-unknown-linux-gnu") {
            Some("i386")
        } else if str_eq(t, "mips-unknown-linux-gnu") {
            Some("mips")
        } else if str_eq(t, "mipsel-unknown-linux-gnu") {
            Some("mipsel")
        } else if str_eq(t, "mips64-unknown-linux-gnuabi64") {
            Some("mips64")
        } else if str_eq(t, "mips64el-unknown-linux-gnuabi64") {
            Some("mips64el")
        } else if str_eq(t, "mips64-unknown-linux-muslabi64") {
            Some("musl-linux-mips64")
        } else if str_eq(t, "mips64el-unknown-linux-muslabi64") {
            Some("musl-linux-mips64el")
        } else if str_eq(t, "powerpc-unknown-linux-gnu") {
            Some("powerpc")
        } else if str_eq(t, "powerpc64-unknown-linux-gnu") {
            Some("ppc64")
        } else if str_eq(t, "powerpc64le-unknown-linux-gnu") {
            Some("ppc64el")
        } else if str_eq(t, "riscv64gc-unknown-linux-gnu") {
            Some("riscv64")
        } else if str_eq(t, "s390x-unknown-linux-gnu") {
            Some("s390x")
        } else if str_eq(t, "sparc64-unknown-linux-gnu") {
            Some("sparc64")
        } else {
            None
        }
    }
}

impl PartialEq for Target {
    fn eq(&self, other: &Target) -> (r: bool) {
        str_eq(self.triple(), other.triple())
    }
}

impl vstd::std_specs::cmp::PartialEqSpecImpl for Target {
    open spec fn obeys_eq_spec() -> bool {
        true
    }

    open spec fn eq_spec(&self, other: &Target) -> bool {
        self@ == other@
    }
}

impl Eq for Target {
}

} // verus!
