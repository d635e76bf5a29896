//! The launchers of a bundle: the script launchers' text, the README, and
//! the decisions around building the native launcher (its cache key, the
//! toolchain triplet, and the reading of cargo's and rustup's output).
use vstd::prelude::*;
use vstd::string::StringSliceAdditionalSpecFns;
use crate::platform::{OperatingSystem, Target};
use crate::text::{has_substring, contains_seq, lines, split_lines, str_eq, trim, trim_str};

verus! {

/// The SHA-256 digest of `data`, as computed by the `sha2` crate.
pub uninterp spec fn sha256(data: Seq<u8>) -> Seq<u8>;

/// `<sha2::Sha256 as Digest>::digest`: the SHA-256 digest of `data`; the
/// digest is 32 bytes long (its output type is `GenericArray<u8, U32>`).
#[verifier::external_body]
fn sha256_digest(data: &[u8]) -> (r: Vec<u8>)
    ensures
        r@ == sha256(data@),
        r@.len() == 32,
{
    <sha2::Sha256 as sha2::Digest>::digest(data).to_vec()
}

/// The lower-case hexadecimal digit of a value below 16.
pub open spec fn hex_digit(n: u8) -> char {
    seq!['0', '1', '2', '3', '4', '5', '6', '7', '8', '9', 'a', 'b', 'c', 'd', 'e', 'f'][n as int]
}

/// Lower-case hexadecimal text of `data`, two digits per byte, high first.
pub open spec fn hex_lower(data: Seq<u8>) -> Seq<char>
    decreases data.len(),
{
    if data.len() == 0 {
        seq![]
    } else {
        seq![hex_digit(data[0] / 16), hex_digit(data[0] % 16)] + hex_lower(data.drop_first())
    }
}

/// `hex::encode`: the lower-case hexadecimal text of `data`.
#[verifier::external_body]
fn hex_encode(data: &[u8]) -> (r: String)
    ensures
        r@ == hex_lower(data@),
{
    hex::encode(data)
}

pub proof fn lemma_hex_lower_len(data: Seq<u8>)
    ensures
        hex_lower(data).len() == 2 * data.len(),
    decreases data.len(),
{
    if data.len() > 0 {
        lemma_hex_lower_len(data.drop_first());
    }
}

/// The first 12 hexadecimal digits of a digest (of its first six bytes).
pub fn digest_key(digest: &[u8]) -> (r: String)
    requires
        digest@.len() >= 6,
    ensures
        r@ == hex_lower(digest@).take(12),
{
    let text = hex_encode(digest);
    proof {
        lemma_hex_lower_len(digest@);
    }
    text.as_str().substring_char(0, 12).to_owned()
}

/// The key of the native launcher's build cache for a launcher source:
/// the first 12 hexadecimal digits of the SHA-256 digest of its UTF-8 text.
pub fn launcher_src_hash(source: &str) -> (r: String)
    ensures
        r@ == hex_lower(sha256(source.spec_bytes())).take(12),
        r@.len() == 12,
{
    let digest = sha256_digest(source.as_bytes());
    proof {
        lemma_hex_lower_len(digest@);
    }
    digest_key(digest.as_slice())
}

/// The directory name of a target's native launcher build:
/// `{triplet}-{hash}`.
pub fn launcher_cache_key(target: &Target, hash: &str) -> (r: String)
    ensures
        r@ == target.spec_triplet() + "-"@ + hash@,
{
    let mut s = target.triplet();
    s.append("-");
    s.append(hash);
    s
}

/// The error for a target that this machine cannot build a native launcher for.
pub open spec fn no_cross_toolchain_message(t: Target) -> Seq<char> {
    "Target "@ + t.spec_to_string()
        + " couldn't compiled in this machine. Script launcher fallback will be used."@
}

/// The `--target` triplet to build the native launcher with: none for the
/// host itself (the default toolchain), the cross triplet for another
/// target, or an error where no cross toolchain is practical.
pub fn launcher_build_triple(target: &Target, host_os: &str, host_arch: &str) -> (r: Result<
    Option<&'static str>,
    String,
>)
    ensures
        target.spec_is_host(host_os@, host_arch@) ==> r matches Ok(None),
        !target.spec_is_host(host_os@, host_arch@) ==> match target.spec_rust_cross_triplet() {
            Some(t) => (r matches Ok(Some(s)) && s@ == t),
            None => (r matches Err(e) && e@ == no_cross_toolchain_message(*target)),
        },
{
    if target.is_host(host_os, host_arch) {
        return Ok(None);
    }
    match target.rust_cross_triplet() {
        Some(t) => Ok(Some(t)),
        None => {
            let mut e = String::from_str("Target ");
            let name = target.to_string();
            e.append(name.as_str());
            e.append(" couldn't compiled in this machine. Script launcher fallback will be used.");
            Err(e)
        },
    }
}

/// Does the output of `rustup target list --installed` list `triple` on a
/// line of its own (surrounding whitespace aside)?
pub fn target_listed(output: &str, triple: &str) -> (r: bool)
    ensures
        r == exists|i: int|
            0 <= i < lines(output@).len() && trim(#[trigger] lines(output@)[i]) == triple@,
{
    let ls = split_lines(output);
    let mut i: usize = 0;
    while i < ls.len()
        invariant
            i <= ls.len(),
            ls.deep_view() == lines(output@),
            forall|j: int| 0 <= j < i ==> trim(#[trigger] lines(output@)[j]) != triple@,
        decreases ls.len() - i,
    {
        assert(ls.deep_view()[i as int] == ls@[i as int]@);
        if str_eq(trim_str(ls[i].as_str()), triple) {
            return true;
        }
        i += 1;
    }
    false
}

/// The hint added to a failed build's error when the linker failed.
pub const LINKER_HINT: &'static str = "\nTip: System linker is required for cross-compile (Linux→Windows: 'sudo apt install mingw-w64', Linux→linux-arm64: 'sudo apt install gcc-aarch64-linux-gnu').";

/// The error for a failed `cargo build` with standard error `stderr`: a
/// hint when `stderr` mentions the linker, then `stderr` on its own line.
pub fn cargo_build_error(stderr: &str) -> (r: String)
    ensures
        r@ == "cargo build failed:"@ + (if contains_seq(stderr@, "linker"@) {
            LINKER_HINT@
        } else {
            Seq::<char>::empty()
        }) + "\n"@ + stderr@,
{
    let mut e = String::from_str("cargo build failed:");
    if has_substring(stderr, "linker") {
        e.append(LINKER_HINT);
    } else {
        assert(e@ =~= e@ + Seq::<char>::empty());
    }
    e.append("\n");
    e.append(stderr);
    e
}

/// The manifest of the throwaway cargo project that builds the native launcher.
pub const LAUNCHER_CARGO_TOML: &'static str = "[package]\nname = \"pypack-launcher\"\nversion = \"0.1.0\"\nedition = \"2021\"\n\n[profile.release]\nopt-level = \"z\"\nlto = true\nstrip = true\npanic = \"abort\"\ncodegen-units = 1\n";

/// Text of the Unix shell launcher before the application's name.
pub const UNIX_HEAD: &'static str = "#!/bin/bash\n# ";

/// Text of the Unix shell launcher between the application's name and the script's name.
pub const UNIX_MIDDLE: &'static str = " - Python Runtime Bundle\n# This script launches the app with built-in Python runtime.\n\nset -e\n\nSCRIPT_DIR=\"$(cd \"$(dirname \"${BASH_SOURCE[0]}\")\" && pwd)\"\nPYTHON_DIR=\"$SCRIPT_DIR/python\"\nPYTHON_BIN=\"$PYTHON_DIR/bin/python3\"\n\nif [[ \"$(uname)\" == \"Linux\" ]]; then\n    export LD_LIBRARY_PATH=\"$PYTHON_DIR/lib:$LD_LIBRARY_PATH\"\nfi\n\nif [[ \"$(uname)\" == \"Darwin\" ]]; then\n    export DYLD_LIBRARY_PATH=\"$PYTHON_DIR/lib:$DYLD_LIBRARY_PATH\"\n    export DYLD_FRAMEWORK_PATH=\"$PYTHON_DIR/lib:$DYLD_FRAMEWORK_PATH\"\nfi\n\nexport PYTHONHOME=\"$PYTHON_DIR\"\nexport PYTHONPATH=\"$SCRIPT_DIR/lib:$PYTHON_DIR/lib/python3.11/site-packages\"\nexport PYTHONNOUSERSITE=1\nexport PYTHONDONTWRITEBYTECODE=1\n\nexec \"$PYTHON_BIN\" \"$SCRIPT_DIR/app/";

/// Text of the Unix shell launcher after the script's name.
pub const UNIX_TAIL: &'static str = "\" \"$@\"\n";

/// Text of the Windows batch launcher before the application's name.
pub const BATCH_HEAD: &'static str = "@echo off\nREM ";

/// Text of the Windows batch launcher between the application's name and the script's name.
pub const BATCH_MIDDLE: &'static str = " - Python Runtime Bundle\nREM This script launches the app with built-in Python runtime.\n\nsetlocal\n\nset SCRIPT_DIR=%~dp0\nset PYTHON_DIR=%SCRIPT_DIR%python\nset PYTHON_BIN=%PYTHON_DIR%\\python.exe\n\nset PYTHONHOME=%PYTHON_DIR%\nset PYTHONPATH=%SCRIPT_DIR%lib;%PYTHON_DIR%\\Lib\\site-packages\nset PYTHONNOUSERSITE=1\nset PYTHONDONTWRITEBYTECODE=1\n\n\"%PYTHON_BIN%\" \"%SCRIPT_DIR%app\\";

/// Text of the Windows batch launcher after the script's name.
pub const BATCH_TAIL: &'static str = "\" %*\n\nendlocal\n";

/// Text of the PowerShell launcher before the application's name.
pub const POWERSHELL_HEAD: &'static str = "# ";

/// Text of the PowerShell launcher between the application's name and the script's name.
pub const POWERSHELL_MIDDLE: &'static str = " - PowerShell Launcher\n$ScriptDir = Split-Path -Parent $MyInvocation.MyCommand.Path\n$PythonDir = Join-Path $ScriptDir \"python\"\n$PythonBin = Join-Path $PythonDir \"python.exe\"\n\n$env:PYTHONHOME = $PythonDir\n$env:PYTHONPATH = Join-Path $ScriptDir \"lib\"\n$env:PYTHONNOUSERSITE = \"1\"\n$env:PYTHONDONTWRITEBYTECODE = \"1\"\n\n& $PythonBin (Join-Path $ScriptDir \"app\" \"";

/// Text of the PowerShell launcher after the script's name.
pub const POWERSHELL_TAIL: &'static str = "\") @args\n";

/// The Unix shell launcher of application `app` that runs `app/{script}`.
pub open spec fn unix_launcher_text(app: Seq<char>, script: Seq<char>) -> Seq<char> {
    UNIX_HEAD@ + app + UNIX_MIDDLE@ + script + UNIX_TAIL@
}

/// The Windows batch launcher of application `app` that runs `app\{script}`.
pub open spec fn batch_launcher_text(app: Seq<char>, script: Seq<char>) -> Seq<char> {
    BATCH_HEAD@ + app + BATCH_MIDDLE@ + script + BATCH_TAIL@
}

/// The PowerShell launcher of application `app` that runs `app\{script}`.
pub open spec fn powershell_launcher_text(app: Seq<char>, script: Seq<char>) -> Seq<char> {
    POWERSHELL_HEAD@ + app + POWERSHELL_MIDDLE@ + script + POWERSHELL_TAIL@
}

fn surround(head: &str, first: &str, middle: &str, second: &str, tail: &str) -> (r: String)
    ensures
        r@ == head@ + first@ + middle@ + second@ + tail@,
{
    let mut s = head.to_owned();
    s.append(first);
    s.append(middle);
    s.append(second);
    s.append(tail);
    s
}

/// The Unix shell launcher (`{app}.sh`): it sets up the bundled runtime's
/// environment and runs the script with the given arguments.
pub fn unix_launcher_script(app_name: &str, script_name: &str) -> (r: String)
    ensures
        r@ == unix_launcher_text(app_name@, script_name@),
{
    surround(UNIX_HEAD, app_name, UNIX_MIDDLE, script_name, UNIX_TAIL)
}

/// The Windows batch launcher (`{app}.bat`).
pub fn batch_launcher_script(app_name: &str, script_name: &str) -> (r: String)
    ensures
        r@ == batch_launcher_text(app_name@, script_name@),
{
    surround(BATCH_HEAD, app_name, BATCH_MIDDLE, script_name, BATCH_TAIL)
}

/// The PowerShell launcher (`{app}.ps1`).
pub fn powershell_launcher_script(app_name: &str, script_name: &str) -> (r: String)
    ensures
        r@ == powershell_launcher_text(app_name@, script_name@),
{
    surround(POWERSHELL_HEAD, app_name, POWERSHELL_MIDDLE, script_name, POWERSHELL_TAIL)
}

/// A file to write into a bundle.
pub struct LauncherFile {
    /// The file's name in the bundle directory.
    pub name: String,
    /// The file's contents.
    pub contents: String,
    /// Whether the file is made executable (mode 0755).
    pub executable: bool,
}

impl LauncherFile {
    pub open spec fn spec_view(self) -> (Seq<char>, Seq<char>, bool) {
        (self.name@, self.contents@, self.executable)
    }
}

/// The views of a list of files.
pub open spec fn files_view(files: Seq<LauncherFile>) -> Seq<(Seq<char>, Seq<char>, bool)> {
    files.map_values(|f: LauncherFile| f.spec_view())
}

/// The script launcher of a bundle off Windows: the shell launcher
/// `{app}.sh`, executable.
pub open spec fn unix_launcher_files(app: Seq<char>, script: Seq<char>) -> Seq<
    (Seq<char>, Seq<char>, bool),
> {
    seq![(app + ".sh"@, unix_launcher_text(app, script), true)]
}

/// The script launchers of a bundle for Windows: the batch launcher
/// `{app}.bat` and the PowerShell launcher `{app}.ps1`.
pub open spec fn windows_launcher_files(app: Seq<char>, script: Seq<char>) -> Seq<
    (Seq<char>, Seq<char>, bool),
> {
    seq![
        (app + ".bat"@, batch_launcher_text(app, script), false),
        (app + ".ps1"@, powershell_launcher_text(app, script), false),
    ]
}

/// The script launchers of every bundle: the shell launcher `{app}.sh`
/// (executable), the batch launcher `{app}.bat` and the PowerShell
/// launcher `{app}.ps1`.
pub open spec fn launcher_files(app: Seq<char>, script: Seq<char>) -> Seq<
    (Seq<char>, Seq<char>, bool),
> {
    unix_launcher_files(app, script) + windows_launcher_files(app, script)
}

/// The launcher that stands in for a missing native one: off Windows, a
/// bundle without a native launcher gets the shell launcher under the
/// application's own name, executable, so that `./{app}` runs it.
pub open spec fn stand_in_launcher(
    os: OperatingSystem,
    native_installed: bool,
    app: Seq<char>,
    script: Seq<char>,
) -> Option<(Seq<char>, Seq<char>, bool)> {
    if native_installed || os == OperatingSystem::Windows {
        None
    } else {
        Some((app, unix_launcher_text(app, script), true))
    }
}

fn named_file(app_name: &str, extension: &str, contents: String, executable: bool) -> (r:
    LauncherFile)
    ensures
        r.spec_view() == (app_name@ + extension@, contents@, executable),
{
    let mut name = app_name.to_owned();
    name.append(extension);
    LauncherFile { name, contents, executable }
}

/// The Linux/macOS script launcher of a bundle: `{app_name}.sh`, which
/// sets up the bundled runtime's environment and runs `app/{script_name}`
/// with the launcher's arguments.
pub fn create_unix_launcher(app_name: &str, script_name: &str) -> (r: Vec<LauncherFile>)
    ensures
        files_view(r@) == unix_launcher_files(app_name@, script_name@),
{
    let sh = named_file(app_name, ".sh", unix_launcher_script(app_name, script_name), true);
    let r = vec![sh];
    assert(files_view(r@) =~= unix_launcher_files(app_name@, script_name@));
    r
}

/// The Windows script launchers of a bundle: the batch file
/// `{app_name}.bat` and the PowerShell script `{app_name}.ps1`, both
/// running `app\{script_name}` with the launcher's arguments.
pub fn create_windows_launcher(app_name: &str, script_name: &str) -> (r: Vec<LauncherFile>)
    ensures
        files_view(r@) == windows_launcher_files(app_name@, script_name@),
{
    let bat = named_file(app_name, ".bat", batch_launcher_script(app_name, script_name), false);
    let ps = named_file(
        app_name,
        ".ps1",
        powershell_launcher_script(app_name, script_name),
        false,
    );
    let r = vec![bat, ps];
    assert(files_view(r@) =~= windows_launcher_files(app_name@, script_name@));
    r
}

/// The script launchers to write into a bundle for `_target`; they run
/// `app/{script_name}` with the bundled Python runtime. Every bundle gets
/// all three, whatever its target.
pub fn create_launcher(_target: &Target, app_name: &str, script_name: &str) -> (r: Vec<
    LauncherFile,
>)
    ensures
        files_view(r@) == launcher_files(app_name@, script_name@),
{
    let mut r = create_unix_launcher(app_name, script_name);
    let mut w = create_windows_launcher(app_name, script_name);
    let ghost u = files_view(r@);
    let ghost wv = files_view(w@);
    r.append(&mut w);
    assert(files_view(r@) =~= u + wv);
    r
}

/// The launcher to add once the native launcher was tried (`native_installed`
/// tells whether it is in place): see `stand_in_launcher`.
pub fn native_stand_in(
    target: &Target,
    app_name: &str,
    script_name: &str,
    native_installed: bool,
) -> (r: Option<LauncherFile>)
    ensures
        match r {
            Some(f) => stand_in_launcher(target.os, native_installed, app_name@, script_name@)
                == Some(f.spec_view()),
            None => stand_in_launcher(target.os, native_installed, app_name@, script_name@) is None,
        },
{
    if native_installed || target.os == OperatingSystem::Windows {
        None
    } else {
        Some(
            LauncherFile {
                name: app_name.to_owned(),
                contents: unix_launcher_script(app_name, script_name),
                executable: true,
            },
        )
    }
}

/// Pieces of the bundle's README, between the application's name and
/// the target's name where those stand.
pub const README_0: &'static str = "# ";

pub const README_1: &'static str = "\n\n## Python Runtime Bundle\n\nThis package includes every module that is\nneeded to make ";

pub const README_2: &'static str = " run independently.\n\n- Python runtime (standalone build)\n- Application code\n- Dependencies\n\n## Platform: ";

pub const README_3: &'static str = "\n\n## Usage\n\n### Native (recommended)\nLinux/macOS:  ./";

pub const README_4: &'static str = "\nWindows:      ";

pub const README_5: &'static str = ".exe\n\n### Script fallback\nLinux/macOS:  ./";

pub const README_6: &'static str = ".sh\nWindows:      ";

pub const README_7: &'static str = ".bat  (or ";

pub const README_8: &'static str = ".ps1)\n```\nDirectory Tree\n\n";

pub const README_9: &'static str = "/\n├── ";

pub const README_10: &'static str = "          # Linux/macOS launcher\n├── ";

pub const README_11: &'static str = ".bat      # Windows launcher\n├── ";

pub const README_12: &'static str = ".ps1      # PowerShell launcher\n├── python/             # Python runtime\n│   ├── bin/            # Python binary (Linux/macOS)\n│   ├── lib/            # Python libraries\n│   └── python.exe      # Python binary (Windows)\n├── app/                # Application code\n│   └── main.py         # Main script\n├── lib/                # Extra libraries\n└── launcher_src/       # Rust launcher source code\n    └── main.rs\n\nSystem requirements\n\n    ";

pub const README_13: &'static str = " compatible operating system\n\nThis package is created with pypack\n";

/// The usage notes of a bundle's README: how to run application `app`
/// through its native launcher and through its script launchers.
pub open spec fn readme_usage(app: Seq<char>) -> Seq<char> {
    README_3@ + app + README_4@ + app + README_5@ + app + README_6@ + app + README_7@ + app
        + README_8@
}

/// The README of a bundle of application `app` for the target named `target`.
pub open spec fn readme_text(app: Seq<char>, target: Seq<char>) -> Seq<char> {
    README_0@ + app + README_1@ + app + README_2@ + target + readme_usage(app) + app + README_9@
        + app + README_10@ + app + README_11@ + app + README_12@ + target + README_13@
}

/// The README of a bundle: what it holds, how to run it, its layout.
pub fn create_readme(app_name: &str, target: &Target) -> (r: String)
    ensures
        r@ == readme_text(app_name@, target.spec_to_string()),
{
    let t = target.to_string();
    let t = t.as_str();
    let mut s = README_0.to_owned();
    s.append(app_name);
    s.append(README_1);
    s.append(app_name);
    s.append(README_2);
    s.append(t);
    let ghost before_usage = s@;
    s.append(README_3);
    s.append(app_name);
    s.append(README_4);
    s.append(app_name);
    s.append(README_5);
    s.append(app_name);
    s.append(README_6);
    s.append(app_name);
    s.append(README_7);
    s.append(app_name);
    s.append(README_8);
    assert(s@ =~= before_usage + readme_usage(app_name@));
    s.append(app_name);
    s.append(README_9);
    s.append(app_name);
    s.append(README_10);
    s.append(app_name);
    s.append(README_11);
    s.append(app_name);
    s.append(README_12);
    s.append(t);
    s.append(README_13);
    s
}

} // verus!
