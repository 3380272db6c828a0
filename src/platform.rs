use vstd::prelude::*;

verus! {

/// The operating systems for which driver builds are published.
#[derive(PartialEq, Eq, Structural, Debug, Clone, Copy)]
pub enum Platform {
    Windows,
    MacOs,
    Linux,
}

/// Whether two texts hold the same characters.
fn same_text(a: &str, b: &str) -> (r: bool)
    ensures
        r == (a@ == b@),
{
    let n = a.unicode_len();
    if n != b.unicode_len() {
        return false;
    }
    let mut i: usize = 0;
    while i < n
        invariant
            n == a@.len(),
            n == b@.len(),
            i <= n,
            forall|j: int| 0 <= j < i ==> a@[j] == b@[j],
        decreases n - i,
    {
        if a.get_char(i) != b.get_char(i) {
            return false;
        }
        i = i + 1;
    }
    assert(a@ =~= b@);
    true
}

impl Platform {
    /// The platform's name in the driver's download addresses.
    pub open spec fn key(self) -> Seq<char> {
        match self {
            Platform::Windows => "win32"@,
            Platform::MacOs => "mac64"@,
            Platform::Linux => "linux64"@,
        }
    }

    /// The file name of the driver executable on the platform.
    pub open spec fn executable_name(self) -> Seq<char> {
        match self {
            Platform::Windows => "chromedriver.exe"@,
            Platform::MacOs => "chromedriver"@,
            Platform::Linux => "chromedriver"@,
        }
    }

    /// The platform of a target operating system named as Rust names it
    /// (`windows`, `macos`, `linux`); none for any other.
    pub open spec fn of_target_os(os: Seq<char>) -> Option<Platform> {
        if os == "windows"@ {
            Some(Platform::Windows)
        } else if os == "macos"@ {
            Some(Platform::MacOs)
        } else if os == "linux"@ {
            Some(Platform::Linux)
        } else {
            None
        }
    }

    pub fn get_key(self) -> (r: &'static str)
        ensures
            r@ == self.key(),
    {
        match self {
            Platform::Windows => "win32",
            Platform::MacOs => "mac64",
            Platform::Linux => "linux64",
        }
    }

    pub fn get_chromedriver_executable_name(self) -> (r: &'static str)
        ensures
            r@ == self.executable_name(),
    {
        match self {
            Platform::Windows => "chromedriver.exe",
            Platform::MacOs => "chromedriver",
            Platform::Linux => "chromedriver",
        }
    }

    /// The platform of the target operating system `os`, if drivers are published for it.
    pub fn for_target_os(os: &str) -> (r: Option<Platform>)
        ensures
            r == Self::of_target_os(os@),
    {
        if same_text(os, "windows") {
            Some(Platform::Windows)
        } else if same_text(os, "macos") {
            Some(Platform::MacOs)
        } else if same_text(os, "linux") {
            Some(Platform::Linux)
        } else {
            None
        }
    }
}

} // verus!
