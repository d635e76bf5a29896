//! Target platforms: operating system and CPU architecture, their names,
//! the Rust triplets that identify them, and parsing of `os-arch` strings.
use vstd::prelude::*;
use crate::text::{count_char, lemma_count_char_concat, lemma_find_char, count_of_char, find_char, index_of_char, lemma_count_char_absent, lemma_find_char_bounds, str_eq};

verus! {

/// A CPU architecture that bundles can be built for.
#[allow(non_camel_case_types)]
#[derive(Debug, Clone, Copy, PartialEq, Eq, Structural, Hash)]
pub enum Architecture {
    X86_64,
    Aarch64,
}

/// An operating system that bundles can be built for.
#[derive(Debug, Clone, Copy, PartialEq, Eq, Structural, Hash)]
pub enum OperatingSystem {
    Linux,
    Macos,
    Windows,
}

/// A target platform: an operating system on an architecture.
#[derive(Debug, Clone, Copy, PartialEq, Eq, Structural, Hash)]
pub struct Target {
    pub os: OperatingSystem,
    pub arch: Architecture,
}

impl Architecture {
    /// The architecture's display name.
    pub open spec fn spec_name(self) -> Seq<char> {
        match self {
            Architecture::X86_64 => "x86_64"@,
            Architecture::Aarch64 => "aarch64"@,
        }
    }

    /// The display name as a string slice.
    pub fn name(&self) -> (r: &'static str)
        ensures
            r@ == self.spec_name(),
    {
        match self {
            Architecture::X86_64 => "x86_64",
            Architecture::Aarch64 => "aarch64",
        }
    }

    /// The display name (`x86_64` or `aarch64`).
    pub fn to_string(&self) -> (r: String)
        ensures
            r@ == self.spec_name(),
    {
        self.name().to_owned()
    }
}

impl OperatingSystem {
    /// The operating system's display name.
    pub open spec fn spec_name(self) -> Seq<char> {
        match self {
            OperatingSystem::Linux => "linux"@,
            OperatingSystem::Macos => "macos"@,
            OperatingSystem::Windows => "windows"@,
        }
    }

    /// The display name as a string slice.
    pub fn name(&self) -> (r: &'static str)
        ensures
            r@ == self.spec_name(),
    {
        match self {
            OperatingSystem::Linux => "linux",
            OperatingSystem::Macos => "macos",
            OperatingSystem::Windows => "windows",
        }
    }

    /// The display name (`linux`, `macos` or `windows`).
    pub fn to_string(&self) -> (r: String)
        ensures
            r@ == self.spec_name(),
    {
        self.name().to_owned()
    }
}

/// The operating system that a name in a target string stands for.
pub open spec fn os_named(p: Seq<char>) -> Option<OperatingSystem> {
    if p == "linux"@ {
        Some(OperatingSystem::Linux)
    } else if p == "macos"@ || p == "darwin"@ {
        Some(OperatingSystem::Macos)
    } else if p == "windows"@ || p == "win"@ {
        Some(OperatingSystem::Windows)
    } else {
        None
    }
}

/// The architecture that a name in a target string stands for.
pub open spec fn arch_named(p: Seq<char>) -> Option<Architecture> {
    if p == "x86_64"@ || p == "x64"@ || p == "amd64"@ {
        Some(Architecture::X86_64)
    } else if p == "aarch64"@ || p == "arm64"@ {
        Some(Architecture::Aarch64)
    } else {
        None
    }
}

/// What parsing `s` as a target gives: a target, or the error message.
/// `s` must hold exactly one `-`; the part before it names the operating
/// system and the part after it the architecture.
pub open spec fn parse_target(s: Seq<char>) -> Result<Target, Seq<char>> {
    if count_char(s, '-') != 1 {
        Err(
            "Invalid target format: '"@ + s + "'. Use 'os-arch' (e.g., 'linux-x86_64')"@,
        )
    } else {
        let k = find_char(s, '-') as int;
        let os_part = s.take(k);
        let arch_part = s.skip(k + 1);
        match os_named(os_part) {
            None => Err("Unknown OS: '"@ + os_part + "'. Use linux, macos, or windows"@),
            Some(os) => match arch_named(arch_part) {
                None => Err(
                    "Unknown architecture: '"@ + arch_part + "'. Use x86_64 or aarch64"@,
                ),
                Some(arch) => Ok(Target { os, arch }),
            },
        }
    }
}

/// The target that the host's `std::env::consts::OS` and `ARCH` values name.
pub open spec fn host_target(os: Seq<char>, arch: Seq<char>) -> Option<Target> {
    let o = if os == "linux"@ {
        Some(OperatingSystem::Linux)
    } else if os == "macos"@ {
        Some(OperatingSystem::Macos)
    } else if os == "windows"@ {
        Some(OperatingSystem::Windows)
    } else {
        None
    };
    let a = if arch == "x86_64"@ {
        Some(Architecture::X86_64)
    } else if arch == "aarch64"@ {
        Some(Architecture::Aarch64)
    } else {
        None
    };
    match (o, a) {
        (Some(os), Some(arch)) => Some(Target { os, arch }),
        _ => None,
    }
}

/// The operating system whose path conventions a host follows, given its
/// `std::env::consts::OS` value `os`: Windows for `windows`, macOS for
/// `macos`, and Linux's (the Unix ones) for every other host.
pub open spec fn spec_path_family(os: Seq<char>) -> OperatingSystem {
    if os == "windows"@ {
        OperatingSystem::Windows
    } else if os == "macos"@ {
        OperatingSystem::Macos
    } else {
        OperatingSystem::Linux
    }
}

/// The operating system whose path conventions the host named `os`
/// follows.
pub fn path_family(os: &str) -> (r: OperatingSystem)
    ensures
        r == spec_path_family(os@),
{
    if str_eq(os, "windows") {
        OperatingSystem::Windows
    } else if str_eq(os, "macos") {
        OperatingSystem::Macos
    } else {
        OperatingSystem::Linux
    }
}

/// The name of the file that runs a program called `name` on `os`.
pub open spec fn executable_name(os: OperatingSystem, name: Seq<char>) -> Seq<char> {
    match os {
        OperatingSystem::Windows => name + ".exe"@,
        _ => name,
    }
}

impl Target {
    /// `os-arch`, the form that `parse` reads.
    pub open spec fn spec_to_string(self) -> Seq<char> {
        self.os.spec_name() + "-"@ + self.arch.spec_name()
    }

    /// This is the target of a host whose operating system and
    /// architecture names are `os` and `arch`.
    pub open spec fn spec_is_host(self, os: Seq<char>, arch: Seq<char>) -> bool {
        host_target(os, arch) == Some(self)
    }

    /// The Rust target triplet of the Python build for this target.
    pub open spec fn spec_triplet(self) -> Seq<char> {
        match (self.os, self.arch) {
            (OperatingSystem::Linux, Architecture::X86_64) => "x86_64-unknown-linux-gnu"@,
            (OperatingSystem::Linux, Architecture::Aarch64) => "aarch64-unknown-linux-gnu"@,
            (OperatingSystem::Macos, Architecture::X86_64) => "x86_64-apple-darwin"@,
            (OperatingSystem::Macos, Architecture::Aarch64) => "aarch64-apple-darwin"@,
            (OperatingSystem::Windows, Architecture::X86_64) => "x86_64-pc-windows-msvc"@,
            (OperatingSystem::Windows, Architecture::Aarch64) => "aarch64-pc-windows-msvc"@,
        }
    }

    /// The Rust triplet to cross-compile the native launcher with, if any.
    pub open spec fn spec_rust_cross_triplet(self) -> Option<Seq<char>> {
        match (self.os, self.arch) {
            (OperatingSystem::Windows, Architecture::X86_64) => Some("x86_64-pc-windows-gnu"@),
            (OperatingSystem::Windows, Architecture::Aarch64) => None,
            (OperatingSystem::Linux, Architecture::X86_64) => Some("x86_64-unknown-linux-gnu"@),
            (OperatingSystem::Linux, Architecture::Aarch64) => Some(
                "aarch64-unknown-linux-gnu"@,
            ),
            (OperatingSystem::Macos, Architecture::X86_64) => Some("x86_64-apple-darwin"@),
            (OperatingSystem::Macos, Architecture::Aarch64) => Some("aarch64-apple-darwin"@),
        }
    }

    pub fn linux_x86_64() -> (r: Self)
        ensures
            r == (Target { os: OperatingSystem::Linux, arch: Architecture::X86_64 }),
    {
        Target { os: OperatingSystem::Linux, arch: Architecture::X86_64 }
    }

    pub fn linux_aarch64() -> (r: Self)
        ensures
            r == (Target { os: OperatingSystem::Linux, arch: Architecture::Aarch64 }),
    {
        Target { os: OperatingSystem::Linux, arch: Architecture::Aarch64 }
    }

    pub fn macos_x86_64() -> (r: Self)
        ensures
            r == (Target { os: OperatingSystem::Macos, arch: Architecture::X86_64 }),
    {
        Target { os: OperatingSystem::Macos, arch: Architecture::X86_64 }
    }

    pub fn macos_aarch64() -> (r: Self)
        ensures
            r == (Target { os: OperatingSystem::Macos, arch: Architecture::Aarch64 }),
    {
        Target { os: OperatingSystem::Macos, arch: Architecture::Aarch64 }
    }

    pub fn windows_x86_64() -> (r: Self)
        ensures
            r == (Target { os: OperatingSystem::Windows, arch: Architecture::X86_64 }),
    {
        Target { os: OperatingSystem::Windows, arch: Architecture::X86_64 }
    }

    /// Parses `os-arch`, accepting `darwin` for macOS, `win` for Windows,
    /// `x64` and `amd64` for x86_64 and `arm64` for aarch64.
    pub fn parse(s: &str) -> (r: Result<Self, String>)
        ensures
            match r {
                Ok(t) => parse_target(s@) == Ok::<Target, Seq<char>>(t),
                Err(e) => parse_target(s@) == Err::<Target, Seq<char>>(e@),
            },
    {
        let dashes = count_of_char(s, '-');
        if dashes != 1 {
            let mut e = String::from_str("Invalid target format: '");
            e.append(s);
            e.append("'. Use 'os-arch' (e.g., 'linux-x86_64')");
            return Err(e);
        }
        let n = s.unicode_len();
        let k = index_of_char(s, '-');
        proof {
            lemma_find_char_bounds(s@, '-');
            if k == n {
                lemma_count_char_absent(s@, '-');
            }
        }
        let os_part = s.substring_char(0, k);
        let arch_part = s.substring_char(k + 1, n);
        assert(os_part@ == s@.take(k as int));
        assert(arch_part@ =~= s@.skip(k + 1));
        let os = if str_eq(os_part, "linux") {
            OperatingSystem::Linux
        } else if str_eq(os_part, "macos") || str_eq(os_part, "darwin") {
            OperatingSystem::Macos
        } else if str_eq(os_part, "windows") || str_eq(os_part, "win") {
            OperatingSystem::Windows
        } else {
            let mut e = String::from_str("Unknown OS: '");
            e.append(os_part);
            e.append("'. Use linux, macos, or windows");
            return Err(e);
        };
        let arch = if str_eq(arch_part, "x86_64") || str_eq(arch_part, "x64") || str_eq(
            arch_part,
            "amd64",
        ) {
            Architecture::X86_64
        } else if str_eq(arch_part, "aarch64") || str_eq(arch_part, "arm64") {
            Architecture::Aarch64
        } else {
            let mut e = String::from_str("Unknown architecture: '");
            e.append(arch_part);
            e.append("'. Use x86_64 or aarch64");
            return Err(e);
        };
        Ok(Target { os, arch })
    }

    /// The Rust target triplet of the Python build for this target.
    pub fn triplet(&self) -> (r: String)
        ensures
            r@ == self.spec_triplet(),
    {
        let s = match (self.os, self.arch) {
            (OperatingSystem::Linux, Architecture::X86_64) => "x86_64-unknown-linux-gnu",
            (OperatingSystem::Linux, Architecture::Aarch64) => "aarch64-unknown-linux-gnu",
            (OperatingSystem::Macos, Architecture::X86_64) => "x86_64-apple-darwin",
            (OperatingSystem::Macos, Architecture::Aarch64) => "aarch64-apple-darwin",
            (OperatingSystem::Windows, Architecture::X86_64) => "x86_64-pc-windows-msvc",
            (OperatingSystem::Windows, Architecture::Aarch64) => "aarch64-pc-windows-msvc",
        };
        s.to_owned()
    }

    /// The target that the host's operating system and architecture names
    /// (the values of `std::env::consts::OS` and `ARCH`) denote, if it is
    /// one that bundles can be built for.
    pub fn host(os: &str, arch: &str) -> (r: Option<Target>)
        ensures
            r == host_target(os@, arch@),
    {
        let o = if str_eq(os, "linux") {
            OperatingSystem::Linux
        } else if str_eq(os, "macos") {
            OperatingSystem::Macos
        } else if str_eq(os, "windows") {
            OperatingSystem::Windows
        } else {
            return None;
        };
        let a = if str_eq(arch, "x86_64") {
            Architecture::X86_64
        } else if str_eq(arch, "aarch64") {
            Architecture::Aarch64
        } else {
            return None;
        };
        Some(Target { os: o, arch: a })
    }

    /// Is this the target of a host whose operating system and
    /// architecture names are `os` and `arch`?
    pub fn is_host(&self, os: &str, arch: &str) -> (r: bool)
        ensures
            r == self.spec_is_host(os@, arch@),
    {
        match Target::host(os, arch) {
            Some(h) => h == *self,
            None => false,
        }
    }

    /// The Rust triplet to cross-compile the native launcher with;
    /// `None` where no practical cross toolchain exists (windows-aarch64).
    pub fn rust_cross_triplet(&self) -> (r: Option<&'static str>)
        ensures
            match r {
                Some(s) => self.spec_rust_cross_triplet() == Some(s@),
                None => self.spec_rust_cross_triplet() is None,
            },
    {
        match (self.os, self.arch) {
            (OperatingSystem::Windows, Architecture::X86_64) => Some("x86_64-pc-windows-gnu"),
            (OperatingSystem::Windows, Architecture::Aarch64) => None,
            (OperatingSystem::Linux, Architecture::X86_64) => Some("x86_64-unknown-linux-gnu"),
            (OperatingSystem::Linux, Architecture::Aarch64) => Some("aarch64-unknown-linux-gnu"),
            (OperatingSystem::Macos, Architecture::X86_64) => Some("x86_64-apple-darwin"),
            (OperatingSystem::Macos, Architecture::Aarch64) => Some("aarch64-apple-darwin"),
        }
    }

    /// The application's executable file name on this target
    /// (`app.exe` on Windows, `app` elsewhere).
    pub fn exe_file_name(&self, app_name: &str) -> (r: String)
        ensures
            r@ == executable_name(self.os, app_name@),
    {
        match self.os {
            OperatingSystem::Windows => {
                let mut s = app_name.to_owned();
                s.append(".exe");
                s
            },
            _ => app_name.to_owned(),
        }
    }

    /// The file name of a built binary called `name` on this target.
    pub fn bin_file_name(&self, name: &str) -> (r: String)
        ensures
            r@ == executable_name(self.os, name@),
    {
        match self.os {
            OperatingSystem::Windows => {
                let mut s = name.to_owned();
                s.append(".exe");
                s
            },
            _ => name.to_owned(),
        }
    }

    /// `os-arch` (for example `linux-x86_64`).
    pub fn to_string(&self) -> (r: String)
        ensures
            r@ == self.spec_to_string(),
    {
        let mut s = self.os.name().to_owned();
        s.append("-");
        s.append(self.arch.name());
        s
    }
}


/// Parsing gives back every target from its own name: for every target
/// `t`, `Target::parse(&t.to_string())` is `Ok(t)`.
pub proof fn lemma_parse_inverts_to_string(t: Target)
    ensures
        parse_target(t.spec_to_string()) == Ok::<Target, Seq<char>>(t),
{
    reveal_strlit("linux");
    reveal_strlit("macos");
    reveal_strlit("windows");
    reveal_strlit("x86_64");
    reveal_strlit("aarch64");
    reveal_strlit("-");
    reveal_strlit("darwin");
    reveal_strlit("win");
    reveal_strlit("x64");
    reveal_strlit("amd64");
    reveal_strlit("arm64");
    let o = t.os.spec_name();
    let a = t.arch.spec_name();
    let s = t.spec_to_string();
    match t.os {
        OperatingSystem::Linux => assert(o =~= seq!['l', 'i', 'n', 'u', 'x']),
        OperatingSystem::Macos => assert(o =~= seq!['m', 'a', 'c', 'o', 's']),
        OperatingSystem::Windows => assert(o =~= seq!['w', 'i', 'n', 'd', 'o', 'w', 's']),
    }
    match t.arch {
        Architecture::X86_64 => assert(a =~= seq!['x', '8', '6', '_', '6', '4']),
        Architecture::Aarch64 => assert(a =~= seq!['a', 'a', 'r', 'c', 'h', '6', '4']),
    }
    assert(forall|j: int| 0 <= j < o.len() ==> o[j] != '-');
    assert(forall|j: int| 0 <= j < a.len() ==> a[j] != '-');
    assert("-"@ =~= seq!['-']);
    lemma_count_char_absent(o, '-');
    lemma_count_char_absent(a, '-');
    lemma_count_char_concat(o, "-"@, '-');
    lemma_count_char_concat(o + "-"@, a, '-');
    assert(count_char("-"@, '-') == 1) by {
        assert("-"@.drop_first() =~= Seq::<char>::empty());
        assert(count_char(Seq::<char>::empty(), '-') == 0);
    }
    lemma_find_char(s, '-', o.len() as int);
    assert(s.take(o.len() as int) =~= o);
    assert(s.skip(o.len() + 1 as int) =~= a);
}

/// Distinct targets have distinct names: `to_string` is injective.
pub proof fn lemma_to_string_injective(t: Target, u: Target)
    requires
        t.spec_to_string() == u.spec_to_string(),
    ensures
        t == u,
{
    lemma_parse_inverts_to_string(t);
    lemma_parse_inverts_to_string(u);
}

/// Distinct targets have distinct Python build triplets.
pub proof fn lemma_triplet_injective(t: Target, u: Target)
    requires
        t.spec_triplet() == u.spec_triplet(),
    ensures
        t == u,
{
    reveal_strlit("x86_64-unknown-linux-gnu");
    reveal_strlit("aarch64-unknown-linux-gnu");
    reveal_strlit("x86_64-apple-darwin");
    reveal_strlit("aarch64-apple-darwin");
    reveal_strlit("x86_64-pc-windows-msvc");
    reveal_strlit("aarch64-pc-windows-msvc");
    if t != u {
        let a = t.spec_triplet();
        let b = u.spec_triplet();
        assert(a.len() != b.len() || a[0] != b[0] || a[7] != b[7] || a[8] != b[8]);
    }
}

/// The native launcher has a cross-compilation triplet for every target
/// but windows-aarch64; off Windows it is the target's own triplet.
pub proof fn lemma_cross_triplet(t: Target)
    ensures
        (t.spec_rust_cross_triplet() is None) <==> (t == Target {
            os: OperatingSystem::Windows,
            arch: Architecture::Aarch64,
        }),
        t.os != OperatingSystem::Windows ==> t.spec_rust_cross_triplet() == Some(
            t.spec_triplet(),
        ),
{
}

/// The default targets are supported targets, and no supported target
/// is listed twice.
pub proof fn lemma_default_targets_supported()
    ensures
        forall|i: int|
            0 <= i < spec_default_targets().len() ==> spec_all_targets().contains(
                #[trigger] spec_default_targets()[i],
            ),
        forall|i: int, j: int|
            0 <= i < j < spec_all_targets().len() ==> spec_all_targets()[i]
                != spec_all_targets()[j],
{
    let all = spec_all_targets();
    assert(all[0] == spec_default_targets()[0]);
    assert(all[3] == spec_default_targets()[1]);
    assert(all[4] == spec_default_targets()[2]);
}

/// The targets built when none are named.
pub open spec fn spec_default_targets() -> Seq<Target> {
    seq![
        Target { os: OperatingSystem::Linux, arch: Architecture::X86_64 },
        Target { os: OperatingSystem::Macos, arch: Architecture::Aarch64 },
        Target { os: OperatingSystem::Windows, arch: Architecture::X86_64 },
    ]
}

/// Every supported target.
pub open spec fn spec_all_targets() -> Seq<Target> {
    seq![
        Target { os: OperatingSystem::Linux, arch: Architecture::X86_64 },
        Target { os: OperatingSystem::Linux, arch: Architecture::Aarch64 },
        Target { os: OperatingSystem::Macos, arch: Architecture::X86_64 },
        Target { os: OperatingSystem::Macos, arch: Architecture::Aarch64 },
        Target { os: OperatingSystem::Windows, arch: Architecture::X86_64 },
    ]
}

/// The targets built when none are named: linux-x86_64, macos-aarch64
/// and windows-x86_64.
pub fn default_targets() -> (r: Vec<Target>)
    ensures
        r@ == spec_default_targets(),
{
    let r = vec![Target::linux_x86_64(), Target::macos_aarch64(), Target::windows_x86_64()];
    assert(r@ =~= spec_default_targets());
    r
}

/// Every supported target, windows-aarch64 excepted.
pub fn all_targets() -> (r: Vec<Target>)
    ensures
        r@ == spec_all_targets(),
{
    let r = vec![
        Target::linux_x86_64(),
        Target::linux_aarch64(),
        Target::macos_x86_64(),
        Target::macos_aarch64(),
        Target::windows_x86_64(),
    ];
    assert(r@ =~= spec_all_targets());
    r
}

} // verus!
