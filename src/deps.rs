use vstd::prelude::*;
use vstd::string::StringExecFns;

verus! {

/// Where the helper binaries are published.
pub open spec fn dependency_base_url() -> Seq<char> {
    "https://github.com/Lodestone-Team/dependencies/raw/main/"@
}

/// How the binaries name an architecture: `x86_64` is `x64`, the rest keep
/// their name.
pub open spec fn arch_label(arch: Seq<char>) -> Seq<char> {
    if arch == "x86_64"@ {
        "x64"@
    } else {
        arch
    }
}

/// The file name of the 7-Zip binary for `os` on `arch`.
pub open spec fn seven_zip_name_spec(os: Seq<char>, arch: Seq<char>) -> Seq<char> {
    "7z_"@ + os + "_"@ + arch_label(arch)
}

/// Whether two strings hold the same characters.
pub fn str_eq(a: &str, b: &str) -> (r: bool)
    ensures
        r == (a@ == b@),
{
    let n = a.unicode_len();
    if n != b.unicode_len() {
        return false;
    }
    let mut i: usize = 0;
    while i < n
        invariant
            n == a@.len(),
            n == b@.len(),
            i <= n,
            forall|j: int| 0 <= j < i ==> a@[j] == b@[j],
        decreases n - i,
    {
        if a.get_char(i) != b.get_char(i) {
            return false;
        }
        i = i + 1;
    }
    proof {
        assert(a@ =~= b@);
    }
    true
}

/// The binaries' name for the architecture `arch`.
pub fn arch_label_of(arch: &str) -> (r: String)
    ensures
        r@ == arch_label(arch@),
{
    if str_eq(arch, "x86_64") {
        String::from_str("x64")
    } else {
        String::from_str(arch)
    }
}

/// The file name of the 7-Zip binary for `os` on `arch`.
pub fn seven_zip_name(os: &str, arch: &str) -> (r: String)
    ensures
        r@ == seven_zip_name_spec(os@, arch@),
{
    let label = arch_label_of(arch);
    let mut r = String::from_str("7z_");
    r.append(os);
    r.append("_");
    r.append(label.as_str());
    r
}

/// Where to download the 7-Zip binary for `os` on `arch`.
pub fn seven_zip_url(os: &str, arch: &str) -> (r: String)
    ensures
        r@ == dependency_base_url() + seven_zip_name_spec(os@, arch@),
{
    let name = seven_zip_name(os, arch);
    let mut r = String::from_str("https://github.com/Lodestone-Team/dependencies/raw/main/");
    r.append(name.as_str());
    r
}

/// Whether the downloaded binary must be marked executable: everywhere but
/// on Windows.
pub fn needs_exec_bit(os: &str) -> (r: bool)
    ensures
        r == (os@ != "windows"@),
{
    !str_eq(os, "windows")
}

/// Whether a first-run setup key is needed: when no user, given by whether
/// each is an owner, owns this manager.
pub fn setup_key_needed(owner_flags: &Vec<bool>) -> (r: bool)
    ensures
        r == !owner_flags@.contains(true),
{
    let mut i: usize = 0;
    while i < owner_flags.len()
        invariant
            i <= owner_flags@.len(),
            forall|j: int| 0 <= j < i ==> !owner_flags@[j],
        decreases owner_flags.len() - i,
    {
        if owner_flags[i] {
            proof {
                assert(owner_flags@[i as int] == true);
            }
            return false;
        }
        i = i + 1;
    }
    true
}

} // verus!
